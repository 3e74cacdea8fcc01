use votacion::{AccountId, Fecha, Votacion, VotacionError};

fn cuenta(n: u8) -> AccountId {
    AccountId::from([n; 32])
}

fn alice() -> AccountId {
    cuenta(0x01)
}

fn bob() -> AccountId {
    cuenta(0x02)
}

fn charlie() -> AccountId {
    cuenta(0x03)
}

fn django() -> AccountId {
    cuenta(0x04)
}

fn frank() -> AccountId {
    cuenta(0x06)
}

fn registrar(votacion: &mut Votacion, admin: AccountId, id: AccountId, nombre: &str) {
    votacion
        .crear_usuario(id, nombre.to_string(), "Apellido".to_string(), "Calle 1".to_string(), "111".to_string(), 30)
        .unwrap();
    votacion.aceptar_usuario(admin, id).unwrap();
}

/// Two elections of 2024. Election 0: candidates alice and bob, voters
/// charlie and django, both vote for alice. Election 1: candidate alice,
/// voters bob, charlie and django; django and bob vote for alice.
fn default_with_data() -> Votacion {
    let antes = Fecha::new(31, 12, 2023);
    let durante = Fecha::new(15, 6, 2024);
    let mut votacion = Votacion::default(frank());
    votacion.crear_eleccion(frank(), Fecha::new(1, 1, 2024), Fecha::new(31, 12, 2024)).unwrap();
    votacion.crear_eleccion(frank(), Fecha::new(1, 1, 2024), Fecha::new(31, 12, 2024)).unwrap();
    registrar(&mut votacion, frank(), alice(), "Alice");
    registrar(&mut votacion, frank(), bob(), "Bob");
    registrar(&mut votacion, frank(), charlie(), "Charlie");
    registrar(&mut votacion, frank(), django(), "Django");
    votacion.postular_candidato(alice(), &antes, 0).unwrap();
    votacion.postular_candidato(bob(), &antes, 0).unwrap();
    votacion.postular_votante(charlie(), &antes, 0).unwrap();
    votacion.postular_votante(django(), &antes, 0).unwrap();
    votacion.agregar_candidato(frank(), &antes, 0, alice()).unwrap();
    votacion.agregar_candidato(frank(), &antes, 0, bob()).unwrap();
    votacion.agregar_votante(frank(), &antes, 0, charlie()).unwrap();
    votacion.agregar_votante(frank(), &antes, 0, django()).unwrap();
    votacion.postular_candidato(alice(), &antes, 1).unwrap();
    votacion.postular_votante(charlie(), &antes, 1).unwrap();
    votacion.postular_votante(django(), &antes, 1).unwrap();
    votacion.postular_votante(bob(), &antes, 1).unwrap();
    votacion.agregar_candidato(frank(), &antes, 1, alice()).unwrap();
    votacion.agregar_votante(frank(), &antes, 1, bob()).unwrap();
    votacion.agregar_votante(frank(), &antes, 1, charlie()).unwrap();
    votacion.agregar_votante(frank(), &antes, 1, django()).unwrap();
    votacion.votar(django(), &durante, 0, alice()).unwrap();
    votacion.votar(charlie(), &durante, 0, alice()).unwrap();
    votacion.votar(django(), &durante, 1, alice()).unwrap();
    votacion.votar(bob(), &durante, 1, alice()).unwrap();
    votacion
}

#[test]
fn test_set_admin() {
    let mut votacion = Votacion::default(alice());
    votacion.set_admin(alice(), bob()).unwrap();
    assert_eq!(votacion.get_admin(), bob());
    assert_eq!(votacion.set_admin(alice(), charlie()), Err(VotacionError::NoEsAdmin));
    assert_eq!(votacion.get_admin(), bob());
}

#[test]
fn set_reporte_solo_admin() {
    let mut votacion = Votacion::new(alice(), charlie());
    assert_eq!(votacion.set_reporte(bob(), django()), Err(VotacionError::NoEsAdmin));
    assert_eq!(votacion.reporte, charlie());
    votacion.set_reporte(alice(), django()).unwrap();
    assert_eq!(votacion.reporte, django());
    assert_eq!(Votacion::default(alice()).reporte, cuenta(0x10));
}

#[test]
fn test_crear_eleccion() {
    let mut votacion = Votacion::default(alice());
    let fecha_inicio = Fecha::new(1, 1, 2024);
    let fecha_fin = Fecha::new(31, 12, 2024);
    let id_eleccion = votacion.crear_eleccion(alice(), fecha_inicio.clone(), fecha_fin.clone()).unwrap();
    let eleccion = votacion.get_eleccion(id_eleccion).unwrap();
    assert_eq!(eleccion.get_id(), 0);
    assert_eq!(eleccion.get_fecha_inicio(), fecha_inicio);
    assert_eq!(eleccion.get_fecha_fin(), fecha_fin);
    assert_eq!(votacion.crear_eleccion(alice(), fecha_inicio, fecha_fin), Ok(1));
}

#[test]
fn test_crear_eleccion_error_no_admin() {
    let mut votacion = Votacion::default(bob());
    let eleccion = votacion.crear_eleccion(alice(), Fecha::new(1, 1, 2024), Fecha::new(31, 12, 2024));
    assert_eq!(eleccion, Err(VotacionError::NoEsAdmin));
}

#[test]
fn test_crear_eleccion_error_fecha_inicio_mayor_que_fin() {
    let mut votacion = Votacion::default(alice());
    let eleccion = votacion.crear_eleccion(alice(), Fecha::new(1, 1, 2024), Fecha::new(31, 12, 2023));
    assert_eq!(eleccion, Err(VotacionError::FechaInicioMayorQueFin));
}

#[test]
fn crear_eleccion_fechas_invalidas() {
    let mut votacion = Votacion::default(alice());
    assert_eq!(
        votacion.crear_eleccion(alice(), Fecha::new(32, 1, 2024), Fecha::new(31, 12, 2024)),
        Err(VotacionError::FechaInvalida)
    );
    assert_eq!(
        votacion.crear_eleccion(alice(), Fecha::new(1, 1, 2024), Fecha::new(31, 2, 2024)),
        Err(VotacionError::FechaInvalida)
    );
    assert!(votacion.get_eleccion(0).is_none());
    assert_eq!(votacion.crear_eleccion(alice(), Fecha::new(1, 1, 2024), Fecha::new(1, 1, 2024)), Ok(0));
}

#[test]
fn test_get_eleccion() {
    let mut votacion = Votacion::default(alice());
    let eleccion = votacion.crear_eleccion(alice(), Fecha::new(1, 1, 2024), Fecha::new(31, 12, 2024)).unwrap();
    assert_eq!(votacion.get_eleccion(0).unwrap().get_id(), eleccion);
    assert!(votacion.get_eleccion(1).is_none());
    assert_eq!(votacion.get_eleccion(0), votacion.get_eleccion(0));
}

#[test]
fn test_crear_usuario() {
    let mut votacion = Votacion::default(alice());
    let usuario = votacion
        .crear_usuario(bob(), "Juan".to_string(), "Perez".to_string(), "Calle Falsa 123".to_string(), "12345678".to_string(), 30)
        .unwrap();
    assert_eq!(usuario.get_addres(), bob());
    assert_eq!(usuario.get_nombre(), "Juan".to_string());
    assert_eq!(usuario.get_apellido(), "Perez".to_string());
    assert_eq!(usuario.get_direccion(), "Calle Falsa 123".to_string());
    assert_eq!(usuario.get_dni(), "12345678".to_string());
    assert_eq!(usuario.get_edad(), 30);
}

#[test]
fn test_crear_usuario_error_usuario_no_aceptado() {
    let mut votacion = Votacion::default(alice());
    votacion
        .crear_usuario(alice(), "Juan".to_string(), "Perez".to_string(), "Calle Falsa 123".to_string(), "12345678".to_string(), 30)
        .unwrap();
    let usuario = votacion.crear_usuario(alice(), "Juan".to_string(), "Perez".to_string(), "Calle Falsa 123".to_string(), "12345678".to_string(), 30);
    assert_eq!(usuario, Err(VotacionError::UsuarioNoAceptado));
}

#[test]
fn test_crear_usuario_error_usuario_ya_registrado() {
    let mut votacion = Votacion::default(alice());
    registrar(&mut votacion, alice(), bob(), "Juan");
    let usuario = votacion.crear_usuario(bob(), "Juan".to_string(), "Perez".to_string(), "Calle Falsa 123".to_string(), "12345678".to_string(), 30);
    assert_eq!(usuario, Err(VotacionError::UsuarioYaRegistrado));
}

#[test]
fn test_aceptar_usuario() {
    let mut votacion = Votacion::default(alice());
    votacion
        .crear_usuario(bob(), "Juan".to_string(), "Perez".to_string(), "Calle Falsa 123".to_string(), "12345678".to_string(), 30)
        .unwrap();
    votacion.aceptar_usuario(alice(), bob()).unwrap();
    assert_eq!(votacion.usuarios_sin_aceptar.len(), 0);
    assert_eq!(votacion.usuarios.len(), 1);
}

#[test]
fn test_aceptar_usuario_error_no_admin() {
    let mut votacion = Votacion::default(charlie());
    votacion
        .crear_usuario(bob(), "Juan".to_string(), "Perez".to_string(), "Calle Falsa 123".to_string(), "12345678".to_string(), 30)
        .unwrap();
    assert_eq!(votacion.aceptar_usuario(alice(), bob()), Err(VotacionError::NoEsAdmin));
}

#[test]
fn test_aceptar_usuario_error_usuario_sin_aceptar_no_encontrado() {
    let mut votacion = Votacion::default(alice());
    assert_eq!(votacion.aceptar_usuario(alice(), bob()), Err(VotacionError::UsuarioSinAceptarNoEncontrado));
}

#[test]
fn test_get_usuario_sin_aceptar() {
    let mut votacion = Votacion::default(alice());
    votacion
        .crear_usuario(bob(), "Juan".to_string(), "Perez".to_string(), "Calle Falsa 123".to_string(), "12345678".to_string(), 30)
        .unwrap();
    assert_eq!(votacion.get_usuario_sin_aceptar(bob()).unwrap().get_addres(), bob());
    assert_eq!(votacion.get_usuario(bob()), Err(VotacionError::UsuarioNoEncontrado));
}

#[test]
fn test_get_usuario_sin_aceptar_error_usuario_sin_aceptar_no_encontrado() {
    let votacion = Votacion::default(alice());
    assert_eq!(votacion.get_usuario_sin_aceptar(bob()), Err(VotacionError::UsuarioSinAceptarNoEncontrado));
}

#[test]
fn test_get_usuario() {
    let mut votacion = Votacion::default(alice());
    registrar(&mut votacion, alice(), bob(), "Juan");
    assert_eq!(votacion.get_usuario(bob()).unwrap().get_addres(), bob());
    assert_eq!(votacion.get_usuario(bob()).unwrap().get_nombre(), "Juan".to_string());
}

#[test]
fn test_get_usuario_error_usuario_no_encontrado() {
    let votacion = Votacion::default(alice());
    assert_eq!(votacion.get_usuario(bob()), Err(VotacionError::UsuarioNoEncontrado));
}

#[test]
fn test_postular_candidato_votacion() {
    let mut votacion = Votacion::default(alice());
    let id = votacion.crear_eleccion(alice(), Fecha::new(1, 1, 2024), Fecha::new(31, 12, 2024)).unwrap();
    registrar(&mut votacion, alice(), bob(), "Juan");
    assert!(votacion.postular_candidato(bob(), &Fecha::new(31, 12, 2023), id).is_ok());
    assert!(votacion.get_eleccion(id).unwrap().is_postulado_candidato(&bob()));
}

#[test]
fn test_postular_candidato_votacion_error_usuario_no_aceptado() {
    let mut votacion = Votacion::default(alice());
    let id = votacion.crear_eleccion(alice(), Fecha::new(1, 1, 2024), Fecha::new(31, 12, 2024)).unwrap();
    votacion
        .crear_usuario(bob(), "Juan".to_string(), "Perez".to_string(), "Calle Falsa 123".to_string(), "12345678".to_string(), 30)
        .unwrap();
    assert_eq!(votacion.postular_candidato(bob(), &Fecha::new(31, 12, 2023), id), Err(VotacionError::UsuarioNoAceptado));
}

#[test]
fn test_postular_candidato_votacion_error_usuario_no_encontrado() {
    let mut votacion = Votacion::default(alice());
    let id = votacion.crear_eleccion(alice(), Fecha::new(1, 1, 2024), Fecha::new(31, 12, 2024)).unwrap();
    assert_eq!(votacion.postular_candidato(bob(), &Fecha::new(31, 12, 2023), id), Err(VotacionError::UsuarioNoEncontrado));
}

#[test]
fn postular_en_eleccion_inexistente() {
    let mut votacion = Votacion::default(alice());
    registrar(&mut votacion, alice(), bob(), "Juan");
    assert_eq!(votacion.postular_votante(bob(), &Fecha::new(31, 12, 2023), 0), Err(VotacionError::EleccionNoEncontrada));
    assert_eq!(votacion.agregar_votante(alice(), &Fecha::new(31, 12, 2023), 0, bob()), Err(VotacionError::EleccionNoEncontrada));
    assert_eq!(votacion.votar(bob(), &Fecha::new(31, 12, 2023), 0, bob()), Err(VotacionError::EleccionNoEncontrada));
}

#[test]
fn test_agregar_candidato_votacion() {
    let mut votacion = Votacion::default(alice());
    let id = votacion.crear_eleccion(alice(), Fecha::new(1, 1, 2024), Fecha::new(31, 12, 2024)).unwrap();
    registrar(&mut votacion, alice(), bob(), "Juan");
    let antes = Fecha::new(31, 12, 2023);
    assert!(votacion.postular_candidato(bob(), &antes, id).is_ok());
    assert!(votacion.agregar_candidato(alice(), &antes, id, bob()).is_ok());
    assert!(votacion.get_eleccion(id).unwrap().is_candidato(&bob()));
}

#[test]
fn test_agregar_candidato_votacion_error_no_es_admin() {
    let mut votacion = Votacion::default(alice());
    let id = votacion.crear_eleccion(alice(), Fecha::new(1, 1, 2024), Fecha::new(31, 12, 2024)).unwrap();
    registrar(&mut votacion, alice(), bob(), "Juan");
    let antes = Fecha::new(31, 12, 2023);
    assert!(votacion.postular_candidato(bob(), &antes, id).is_ok());
    assert_eq!(votacion.agregar_candidato(bob(), &antes, id, bob()), Err(VotacionError::NoEsAdmin));
}

#[test]
fn test_agregar_votante_votacion() {
    let mut votacion = Votacion::default(alice());
    let id = votacion.crear_eleccion(alice(), Fecha::new(1, 1, 2024), Fecha::new(31, 12, 2024)).unwrap();
    registrar(&mut votacion, alice(), bob(), "Juan");
    let antes = Fecha::new(31, 12, 2023);
    assert!(votacion.postular_votante(bob(), &antes, id).is_ok());
    assert!(votacion.agregar_votante(alice(), &antes, id, bob()).is_ok());
    assert!(votacion.get_eleccion(id).unwrap().is_votante(&bob()));
}

#[test]
fn test_agregar_votante_votacion_error_no_es_admin() {
    let mut votacion = Votacion::default(alice());
    let id = votacion.crear_eleccion(alice(), Fecha::new(1, 1, 2024), Fecha::new(31, 12, 2024)).unwrap();
    registrar(&mut votacion, alice(), bob(), "Juan");
    let antes = Fecha::new(31, 12, 2023);
    assert!(votacion.postular_votante(bob(), &antes, id).is_ok());
    assert_eq!(votacion.agregar_votante(bob(), &antes, id, bob()), Err(VotacionError::NoEsAdmin));
    assert_eq!(votacion.agregar_votante(alice(), &antes, id, charlie()), Err(VotacionError::UsuarioNoEncontrado));
}

#[test]
fn test_votar_votacion() {
    let mut votacion = Votacion::default(alice());
    let id = votacion.crear_eleccion(alice(), Fecha::new(1, 1, 2024), Fecha::new(31, 12, 2024)).unwrap();
    let antes = Fecha::new(31, 12, 2023);
    registrar(&mut votacion, alice(), bob(), "Bob");
    registrar(&mut votacion, alice(), alice(), "Alice");
    votacion.postular_votante(bob(), &antes, id).unwrap();
    votacion.postular_candidato(alice(), &antes, id).unwrap();
    votacion.agregar_votante(alice(), &antes, id, bob()).unwrap();
    votacion.agregar_candidato(alice(), &antes, id, alice()).unwrap();
    assert!(votacion.votar(bob(), &Fecha::new(15, 6, 2024), id, alice()).is_ok());
    assert!(votacion.get_eleccion(id).unwrap().ya_voto(&bob()));
}

#[test]
fn test_votar_votacion_error_usuario_no_encontrado() {
    let mut votacion = Votacion::default(alice());
    let id = votacion.crear_eleccion(alice(), Fecha::new(1, 1, 2024), Fecha::new(31, 12, 2024)).unwrap();
    registrar(&mut votacion, alice(), bob(), "Bob");
    votacion.postular_votante(bob(), &Fecha::new(31, 12, 2023), id).unwrap();
    assert_eq!(votacion.votar(bob(), &Fecha::new(15, 6, 2024), id, alice()), Err(VotacionError::UsuarioNoEncontrado));
}

#[test]
fn test_ya_voto_votacion() {
    let votacion = default_with_data();
    assert_eq!(votacion.ya_voto(frank(), 0, charlie()), Ok(true));
    assert_eq!(votacion.ya_voto(frank(), 1, charlie()), Ok(false));
    assert_eq!(votacion.ya_voto(frank(), 2, charlie()), Err(VotacionError::EleccionNoEncontrada));
}

#[test]
fn test_ya_voto_votacion_error_usuario_no_encontrado() {
    let votacion = default_with_data();
    assert_eq!(votacion.ya_voto(frank(), 0, cuenta(0x05)), Err(VotacionError::UsuarioNoEncontrado));
}

#[test]
fn test_ya_voto_votacion_error_no_es_admin() {
    let votacion = default_with_data();
    assert_eq!(votacion.ya_voto(charlie(), 0, charlie()), Err(VotacionError::NoEsAdmin));
}

#[test]
fn test_get_votos_candidato_votacion() {
    let votacion = default_with_data();
    let despues = Fecha::new(1, 1, 2025);
    assert_eq!(votacion.get_votos_candidato(frank(), &despues, 0, alice()), Ok(2));
    assert_eq!(votacion.get_votos_candidato(frank(), &despues, 0, bob()), Ok(0));
    assert_eq!(votacion.get_votos_candidato(frank(), &despues, 1, alice()), Ok(2));
}

#[test]
fn test_get_votos_candidato_votacion_error_no_es_admin() {
    let votacion = default_with_data();
    assert_eq!(votacion.get_votos_candidato(alice(), &Fecha::new(1, 1, 2025), 0, alice()), Err(VotacionError::NoEsAdmin));
}

#[test]
fn test_get_votos_candidato_votacion_error_eleccion_no_encontrada() {
    let votacion = Votacion::default(frank());
    assert_eq!(votacion.get_votos_candidato(frank(), &Fecha::new(1, 1, 2025), 0, alice()), Err(VotacionError::EleccionNoEncontrada));
}

#[test]
fn test_get_votos_candidato_votacion_error_eleccion_no_finalizada() {
    let votacion = default_with_data();
    assert_eq!(votacion.get_votos_candidato(frank(), &Fecha::new(15, 6, 2024), 0, alice()), Err(VotacionError::EleccionNoFinalizada));
}

#[test]
fn test_get_votos_candidato_votacion_error_usuario_no_es_candidato() {
    let votacion = default_with_data();
    assert_eq!(votacion.get_votos_candidato(frank(), &Fecha::new(1, 1, 2025), 0, charlie()), Err(VotacionError::UsuarioNoEsCandidato));
}

#[test]
fn test_get_iniciada_votacion() {
    let mut votacion = Votacion::default(alice());
    let id = votacion.crear_eleccion(alice(), Fecha::new(1, 1, 2024), Fecha::new(31, 12, 2024)).unwrap();
    assert!(votacion.get_iniciada(alice(), &Fecha::new(15, 6, 2024), id).unwrap());
    assert!(!votacion.get_iniciada(alice(), &Fecha::new(15, 6, 2023), id).unwrap());
    assert_eq!(votacion.get_iniciada(bob(), &Fecha::new(15, 6, 2024), id), Err(VotacionError::NoEsAdmin));
}

#[test]
fn test_get_iniciada_votacion_error_eleccion_no_encontrada() {
    let votacion = Votacion::default(alice());
    assert_eq!(votacion.get_iniciada(alice(), &Fecha::new(15, 6, 2024), 0), Err(VotacionError::EleccionNoEncontrada));
}

#[test]
fn test_get_finalizada_votacion() {
    let mut votacion = Votacion::default(alice());
    let id = votacion.crear_eleccion(alice(), Fecha::new(1, 1, 2024), Fecha::new(31, 12, 2024)).unwrap();
    assert!(!votacion.get_finalizada(alice(), &Fecha::new(1, 1, 2023), id).unwrap());
    assert!(!votacion.get_finalizada(alice(), &Fecha::new(15, 6, 2024), id).unwrap());
    assert!(votacion.get_finalizada(alice(), &Fecha::new(1, 1, 2025), id).unwrap());
}

#[test]
fn test_get_finalizada_votacion_error_eleccion_no_encontrada() {
    let votacion = Votacion::default(alice());
    assert_eq!(votacion.get_finalizada(alice(), &Fecha::new(1, 1, 2025), 0), Err(VotacionError::EleccionNoEncontrada));
}

#[test]
fn test_reporte_registro_votantes() {
    let votacion = default_with_data();
    let mut reporte = votacion.reporte_registro_votantes(cuenta(0x10), 0).unwrap();
    assert_eq!(reporte.len(), 2);
    assert_eq!(reporte.pop().unwrap(), django());
    assert_eq!(reporte.pop().unwrap(), charlie());
    assert_eq!(votacion.reporte_registro_votantes(frank(), 0), Err(VotacionError::SoloReportes));
    assert_eq!(votacion.reporte_registro_votantes(cuenta(0x10), 5), Err(VotacionError::EleccionNoEncontrada));
}

#[test]
fn test_reporte_participacion_votacion() {
    let votacion = default_with_data();
    let reporte = votacion.reporte_participacion(cuenta(0x10), &Fecha::new(1, 1, 2026), 0).unwrap();
    assert_eq!(reporte.0, 2);
    assert_eq!(reporte.1, 2);
    let reporte = votacion.reporte_participacion(cuenta(0x10), &Fecha::new(1, 1, 2026), 1).unwrap();
    assert_eq!(reporte, (3, 2));
}

#[test]
fn test_reporte_resultado() {
    let votacion = default_with_data();
    let mut reporte = votacion.reporte_resultado(cuenta(0x10), &Fecha::new(1, 1, 2026), 0).unwrap();
    let primero = reporte.pop().unwrap();
    let segundo = reporte.pop().unwrap();
    assert_eq!(primero.0, bob());
    assert_eq!(primero.1, 0);
    assert_eq!(segundo.0, alice());
    assert_eq!(segundo.1, 2);
}

#[test]
fn escenario_voto_y_conteo_final() {
    let mut votacion = Votacion::default(frank());
    let id = votacion.crear_eleccion(frank(), Fecha::new(1, 1, 2024), Fecha::new(31, 12, 2024)).unwrap();
    registrar(&mut votacion, frank(), alice(), "A");
    registrar(&mut votacion, frank(), bob(), "B");
    let antes = Fecha::new(31, 12, 2023);
    votacion.postular_votante(bob(), &antes, id).unwrap();
    votacion.agregar_votante(frank(), &antes, id, bob()).unwrap();
    votacion.postular_candidato(alice(), &antes, id).unwrap();
    votacion.agregar_candidato(frank(), &antes, id, alice()).unwrap();
    assert_eq!(votacion.votar(bob(), &Fecha::new(15, 6, 2024), id, alice()), Ok(()));
    assert_eq!(votacion.get_votos_candidato(frank(), &Fecha::new(1, 1, 2025), id, alice()), Ok(1));
}

#[test]
fn escenario_doble_voto() {
    let mut votacion = Votacion::default(frank());
    let id = votacion.crear_eleccion(frank(), Fecha::new(1, 1, 2024), Fecha::new(31, 12, 2024)).unwrap();
    registrar(&mut votacion, frank(), alice(), "A");
    registrar(&mut votacion, frank(), bob(), "B");
    let antes = Fecha::new(31, 12, 2023);
    votacion.postular_votante(bob(), &antes, id).unwrap();
    votacion.agregar_votante(frank(), &antes, id, bob()).unwrap();
    votacion.postular_candidato(alice(), &antes, id).unwrap();
    votacion.agregar_candidato(frank(), &antes, id, alice()).unwrap();
    let durante = Fecha::new(15, 6, 2024);
    assert_eq!(votacion.votar(bob(), &durante, id, alice()), Ok(()));
    assert_eq!(votacion.votar(bob(), &durante, id, alice()), Err(VotacionError::UsuarioYaVoto));
    assert_eq!(votacion.get_votos_candidato(frank(), &Fecha::new(1, 1, 2025), id, alice()), Ok(1));
}

#[test]
fn escenario_postulacion_exclusiva() {
    let mut votacion = Votacion::default(frank());
    let id = votacion.crear_eleccion(frank(), Fecha::new(1, 1, 2024), Fecha::new(31, 12, 2024)).unwrap();
    registrar(&mut votacion, frank(), cuenta(0x07), "X");
    let antes = Fecha::new(31, 12, 2023);
    votacion.postular_candidato(cuenta(0x07), &antes, id).unwrap();
    assert_eq!(votacion.postular_votante(cuenta(0x07), &antes, id), Err(VotacionError::UsuarioEsPostuladoCandidato));
}

#[test]
fn escenario_fechas_de_creacion() {
    let mut votacion = Votacion::default(frank());
    assert_eq!(
        votacion.crear_eleccion(frank(), Fecha::new(1, 1, 2025), Fecha::new(31, 12, 2024)),
        Err(VotacionError::FechaInicioMayorQueFin)
    );
    assert_eq!(
        votacion.crear_eleccion(frank(), Fecha::new(32, 1, 2024), Fecha::new(31, 12, 2024)),
        Err(VotacionError::FechaInvalida)
    );
}

#[test]
fn escenario_reportes_antes_y_despues_del_fin() {
    let votacion = default_with_data();
    let reporte = cuenta(0x10);
    let durante = Fecha::new(15, 6, 2024);
    let despues = Fecha::new(1, 1, 2025);
    assert_eq!(votacion.reporte_participacion(reporte, &durante, 0), Err(VotacionError::EleccionNoFinalizada));
    assert_eq!(votacion.reporte_resultado(reporte, &durante, 0), Err(VotacionError::EleccionNoFinalizada));
    assert_eq!(votacion.reporte_participacion(reporte, &despues, 0), Ok((2, 2)));
    assert_eq!(votacion.reporte_resultado(reporte, &despues, 0), Ok(vec![(alice(), 2), (bob(), 0)]));
    assert_eq!(votacion.reporte_resultado(frank(), &despues, 0), Err(VotacionError::SoloReportes));
}

#[test]
fn fases_bloquean_operaciones() {
    let mut votacion = default_with_data();
    let durante = Fecha::new(15, 6, 2024);
    let despues = Fecha::new(1, 1, 2025);
    let antes = Fecha::new(31, 12, 2023);
    assert_eq!(votacion.postular_votante(bob(), &durante, 0), Err(VotacionError::EleccionYaIniciada));
    assert_eq!(votacion.postular_votante(bob(), &despues, 0), Err(VotacionError::EleccionYaFinalizada));
    assert_eq!(votacion.agregar_votante(frank(), &durante, 0, bob()), Err(VotacionError::EleccionYaIniciada));
    assert_eq!(votacion.votar(bob(), &antes, 1, alice()), Err(VotacionError::EleccionNoIniciada));
    assert_eq!(votacion.votar(bob(), &despues, 1, alice()), Err(VotacionError::EleccionYaFinalizada));
}

#[test]
fn consultas_repetidas_dan_lo_mismo() {
    let votacion = default_with_data();
    let despues = Fecha::new(1, 1, 2025);
    assert_eq!(votacion.get_eleccion(0), votacion.get_eleccion(0));
    assert_eq!(votacion.ya_voto(frank(), 0, django()), votacion.ya_voto(frank(), 0, django()));
    assert_eq!(
        votacion.get_votos_candidato(frank(), &despues, 0, alice()),
        votacion.get_votos_candidato(frank(), &despues, 0, alice())
    );
}

#[test]
fn mensajes_de_error() {
    assert_eq!(VotacionError::NoEsAdmin.mensaje(), "No es admin".to_string());
    assert_eq!(VotacionError::EleccionNoFinalizada.mensaje(), "Elección no finalizada".to_string());
}
