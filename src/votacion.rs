use crate::cuenta::AccountId;
use crate::eleccion::{
    excluyentes,
    lemma_exclusividad,
    lemma_push_contiene,
    lemma_remove_contiene,
    resultado,
    Eleccion,
    EleccionView,
};
use crate::errores::VotacionError;
use crate::fecha::Fecha;
use crate::usuario::Usuario;
use vstd::prelude::*;

verus! {

broadcast use vstd::array::group_array_axioms;

/// The identities of a list of users, in order.
pub open spec fn direcciones(s: Seq<Usuario>) -> Seq<AccountId> {
    s.map_values(|u: Usuario| u.addres)
}

/// The position of the first user of `s` whose identity is `id`.
pub open spec fn indice_usuario(s: Seq<Usuario>, id: AccountId) -> int {
    choose|i: int|
        0 <= i < s.len() && s[i].addres == id && forall|j: int| 0 <= j < i ==> s[j].addres != id
}

/// The first user of `s` whose identity is `id`, if any.
pub open spec fn buscar_usuario(s: Seq<Usuario>, id: AccountId) -> Option<Usuario> {
    if direcciones(s).contains(id) {
        Some(s[indice_usuario(s, id)])
    } else {
        None
    }
}

/// The state of the voting service, as sequences.
pub struct VotacionView {
    pub admin: AccountId,
    pub reporte: AccountId,
    pub elecciones: Seq<EleccionView>,
    pub usuarios: Seq<Usuario>,
    pub usuarios_sin_aceptar: Seq<Usuario>,
}

impl VotacionView {
    /// The invariant of the service: every election is well formed and sits
    /// at the position of its id; no identity has more than one user record,
    /// pending or accepted.
    pub open spec fn wf(self) -> bool {
        &&& forall|i: int|
            0 <= i < self.elecciones.len() ==> #[trigger] self.elecciones[i].wf()
                && self.elecciones[i].id == i
        &&& direcciones(self.usuarios).no_duplicates()
        &&& direcciones(self.usuarios_sin_aceptar).no_duplicates()
        &&& excluyentes(direcciones(self.usuarios), direcciones(self.usuarios_sin_aceptar))
    }

    /// `id` has an accepted user record.
    pub open spec fn es_usuario(self, id: AccountId) -> bool {
        direcciones(self.usuarios).contains(id)
    }

    /// `id` has a pending user record.
    pub open spec fn es_usuario_sin_aceptar(self, id: AccountId) -> bool {
        direcciones(self.usuarios_sin_aceptar).contains(id)
    }

    /// The service with election `id` replaced by `e`.
    pub open spec fn con_eleccion(self, id: int, e: EleccionView) -> VotacionView {
        VotacionView { elecciones: self.elecciones.update(id, e), ..self }
    }

    /// Why `caller` may not nominate themself in election `id` at `ahora`, if so.
    pub open spec fn error_postulacion(self, caller: AccountId, ahora: Fecha, id: u32) -> Option<VotacionError> {
        if self.es_usuario_sin_aceptar(caller) {
            Some(VotacionError::UsuarioNoAceptado)
        } else if !self.es_usuario(caller) {
            Some(VotacionError::UsuarioNoEncontrado)
        } else if id >= self.elecciones.len() {
            Some(VotacionError::EleccionNoEncontrada)
        } else {
            self.elecciones[id as int].error_postulacion(caller, ahora)
        }
    }

    /// Why `caller` may not accept `candidato` in election `id` at `ahora`, if so.
    pub open spec fn error_agregar_candidato(
        self,
        caller: AccountId,
        ahora: Fecha,
        id: u32,
        candidato: AccountId,
    ) -> Option<VotacionError> {
        if caller != self.admin {
            Some(VotacionError::NoEsAdmin)
        } else if !self.es_usuario(candidato) {
            Some(VotacionError::UsuarioNoEncontrado)
        } else if id >= self.elecciones.len() {
            Some(VotacionError::EleccionNoEncontrada)
        } else {
            self.elecciones[id as int].error_agregar_candidato(candidato, ahora)
        }
    }

    /// Why `caller` may not accept `votante` in election `id` at `ahora`, if so.
    pub open spec fn error_agregar_votante(
        self,
        caller: AccountId,
        ahora: Fecha,
        id: u32,
        votante: AccountId,
    ) -> Option<VotacionError> {
        if caller != self.admin {
            Some(VotacionError::NoEsAdmin)
        } else if !self.es_usuario(votante) {
            Some(VotacionError::UsuarioNoEncontrado)
        } else if id >= self.elecciones.len() {
            Some(VotacionError::EleccionNoEncontrada)
        } else {
            self.elecciones[id as int].error_agregar_votante(votante, ahora)
        }
    }

    /// Why the vote of `caller` for `candidato` in election `id` at `ahora` is refused, if so.
    pub open spec fn error_votar(self, caller: AccountId, ahora: Fecha, id: u32, candidato: AccountId) -> Option<
        VotacionError,
    > {
        if !self.es_usuario(candidato) || !self.es_usuario(caller) {
            Some(VotacionError::UsuarioNoEncontrado)
        } else if id >= self.elecciones.len() {
            Some(VotacionError::EleccionNoEncontrada)
        } else {
            self.elecciones[id as int].error_votar(caller, candidato, ahora)
        }
    }

    /// Why `caller` may not create an election from `inicio` to `fin`, if so.
    pub open spec fn error_crear_eleccion(self, caller: AccountId, inicio: Fecha, fin: Fecha) -> Option<
        VotacionError,
    > {
        if caller != self.admin {
            Some(VotacionError::NoEsAdmin)
        } else if !inicio.valida() || !fin.valida() {
            Some(VotacionError::FechaInvalida)
        } else if inicio.posterior_a(fin) {
            Some(VotacionError::FechaInicioMayorQueFin)
        } else {
            None
        }
    }

    /// The service after the pending user `id` is accepted.
    pub open spec fn con_usuario_aceptado(self, id: AccountId) -> VotacionView {
        let i = indice_usuario(self.usuarios_sin_aceptar, id);
        VotacionView {
            usuarios_sin_aceptar: self.usuarios_sin_aceptar.remove(i),
            usuarios: self.usuarios.push(self.usuarios_sin_aceptar[i]),
            ..self
        }
    }
}

/// The voting service: the admin, the reporting identity, the elections
/// (each at the position of its id) and the accepted and pending users.
pub struct Votacion {
    pub admin: AccountId,
    pub reporte: AccountId,
    pub elecciones: Vec<Eleccion>,
    pub usuarios: Vec<Usuario>,
    pub usuarios_sin_aceptar: Vec<Usuario>,
}

impl View for Votacion {
    type V = VotacionView;

    open spec fn view(&self) -> VotacionView {
        VotacionView {
            admin: self.admin,
            reporte: self.reporte,
            elecciones: self.elecciones@.map_values(|e: Eleccion| e@),
            usuarios: self.usuarios@,
            usuarios_sin_aceptar: self.usuarios_sin_aceptar@,
        }
    }
}

/// The position of the first user of `v` whose identity is `id`, if any.
fn buscar(v: &Vec<Usuario>, id: &AccountId) -> (r: Option<usize>)
    ensures
        r is None <==> !direcciones(v@).contains(*id),
        r matches Some(i) ==> i < v.len() && v@[i as int].addres == *id && i as int == indice_usuario(v@, *id),
{
    let mut i: usize = 0;
    while i < v.len()
        invariant
            i <= v.len(),
            forall|j: int| 0 <= j < i ==> v@[j].addres != *id,
        decreases v.len() - i,
    {
        if v[i].addres == *id {
            proof {
                assert(direcciones(v@)[i as int] == *id);
                let k = indice_usuario(v@, *id);
                assert(0 <= k < v.len() && v@[k].addres == *id && forall|j: int|
                    0 <= j < k ==> v@[j].addres != *id);
            }
            return Some(i);
        }
        i = i + 1;
    }
    proof {
        if direcciones(v@).contains(*id) {
            let k = choose|k: int| 0 <= k < direcciones(v@).len() && direcciones(v@)[k] == *id;
            assert(v@[k].addres == *id);
        }
    }
    None
}

/// In every election of a well-formed service an identity holds at most
/// one of the roles pending voter, pending candidate, accepted voter and
/// accepted candidate.
pub proof fn lemma_exclusividad_en_votacion(v: VotacionView, i: int, id: AccountId)
    requires
        v.wf(),
        0 <= i < v.elecciones.len(),
    ensures
        ({
            let e = v.elecciones[i];
            &&& !(e.votantes_sin_aceptar.contains(id) && e.candidatos_sin_aceptar.contains(id))
            &&& !(e.votantes_sin_aceptar.contains(id) && e.votantes.contains(id))
            &&& !(e.votantes_sin_aceptar.contains(id) && e.candidatos.contains(id))
            &&& !(e.candidatos_sin_aceptar.contains(id) && e.votantes.contains(id))
            &&& !(e.candidatos_sin_aceptar.contains(id) && e.candidatos.contains(id))
            &&& !(e.votantes.contains(id) && e.candidatos.contains(id))
        }),
{
    assert(v.elecciones[i].wf());
    lemma_exclusividad(v.elecciones[i], id);
}

/// Replacing one election by a well-formed one with the same id keeps the
/// service well formed; replacing it by itself changes nothing.
proof fn lemma_con_eleccion(v: VotacionView, i: int, e: EleccionView)
    requires
        v.wf(),
        0 <= i < v.elecciones.len(),
        e.wf(),
        e.id == v.elecciones[i].id,
    ensures
        v.con_eleccion(i, e).wf(),
        e == v.elecciones[i] ==> v.con_eleccion(i, e) == v,
{
    let w = v.con_eleccion(i, e);
    assert forall|k: int| 0 <= k < w.elecciones.len() implies #[trigger] w.elecciones[k].wf()
        && w.elecciones[k].id == k by {
        assert(v.elecciones[k].wf());
        assert(v.elecciones[i].wf());
        if k != i {
            assert(w.elecciones[k] == v.elecciones[k]);
        }
    }
    if e == v.elecciones[i] {
        assert(w.elecciones =~= v.elecciones);
    }
}

/// Every election of a well-formed service stays well formed when only the
/// users change.
proof fn lemma_mismas_elecciones(v: VotacionView, w: VotacionView)
    requires
        v.wf(),
        w.elecciones == v.elecciones,
    ensures
        forall|i: int|
            0 <= i < w.elecciones.len() ==> #[trigger] w.elecciones[i].wf() && w.elecciones[i].id == i,
{
}

impl Votacion {
    /// A service whose admin is `admin` and whose reports go to `reporte`.
    pub fn new(admin: AccountId, reporte: AccountId) -> (r: Votacion)
        ensures
            r@ == (VotacionView {
                admin,
                reporte,
                elecciones: Seq::empty(),
                usuarios: Seq::empty(),
                usuarios_sin_aceptar: Seq::empty(),
            }),
            r@.wf(),
    {
        let r = Votacion {
            admin,
            reporte,
            elecciones: Vec::new(),
            usuarios: Vec::new(),
            usuarios_sin_aceptar: Vec::new(),
        };
        assert(r@.elecciones =~= Seq::empty());
        assert(direcciones(r@.usuarios) =~= Seq::empty());
        assert(direcciones(r@.usuarios_sin_aceptar) =~= Seq::empty());
        r
    }

    /// A service whose admin is `admin`, with the default reporting identity.
    pub fn default(admin: AccountId) -> (r: Votacion)
        ensures
            r@ == (VotacionView {
                admin,
                reporte: r.reporte,
                elecciones: Seq::empty(),
                usuarios: Seq::empty(),
                usuarios_sin_aceptar: Seq::empty(),
            }),
            forall|i: int| 0 <= i < 32 ==> r.reporte.bytes[i] == 0x10u8,
            r@.wf(),
    {
        let reporte: [u8; 32] = [0x10u8; 32];
        Votacion::new(admin, AccountId::from(reporte))
    }

    /// The current admin.
    pub fn get_admin(&self) -> (r: AccountId)
        ensures
            r == self.admin,
    {
        self.admin
    }

    /// Whether `caller` is the admin.
    pub fn caller_is_admin(&self, caller: AccountId) -> (r: bool)
        ensures
            r == (caller == self.admin),
    {
        self.admin == caller
    }

    /// Whether `caller` is the reporting identity.
    fn caller_is_reporte(&self, caller: AccountId) -> (r: bool)
        ensures
            r == (caller == self.reporte),
    {
        self.reporte == caller
    }

    /// Hands the admin role to `new_admin`; only the admin may.
    pub fn set_admin(&mut self, caller: AccountId, new_admin: AccountId) -> (r: Result<(), VotacionError>)
        requires
            old(self)@.wf(),
        ensures
            final(self)@.wf(),
            r == if caller == old(self).admin {
                Ok(())
            } else {
                Err(VotacionError::NoEsAdmin)
            },
            r is Ok ==> final(self)@ == (VotacionView { admin: new_admin, ..old(self)@ }),
            r is Err ==> final(self)@ == old(self)@,
    {
        if !self.caller_is_admin(caller) {
            return Err(VotacionError::NoEsAdmin);
        }
        self.admin = new_admin;
        Ok(())
    }

    /// Changes the reporting identity; only the admin may.
    pub fn set_reporte(&mut self, caller: AccountId, new_reporte: AccountId) -> (r: Result<(), VotacionError>)
        requires
            old(self)@.wf(),
        ensures
            final(self)@.wf(),
            r == if caller == old(self).admin {
                Ok(())
            } else {
                Err(VotacionError::NoEsAdmin)
            },
            r is Ok ==> final(self)@ == (VotacionView { reporte: new_reporte, ..old(self)@ }),
            r is Err ==> final(self)@ == old(self)@,
    {
        if !self.caller_is_admin(caller) {
            return Err(VotacionError::NoEsAdmin);
        }
        self.reporte = new_reporte;
        Ok(())
    }
    /// Creates an election from `fecha_inicio` to `fecha_fin` and returns its
    /// id, the number of elections before it; only the admin may.
    pub fn crear_eleccion(&mut self, caller: AccountId, fecha_inicio: Fecha, fecha_fin: Fecha) -> (r: Result<u32, VotacionError>)
        requires
            old(self)@.wf(),
            old(self)@.elecciones.len() < u32::MAX,
        ensures
            final(self)@.wf(),
            r == match old(self)@.error_crear_eleccion(caller, fecha_inicio, fecha_fin) {
                Some(e) => Err(e),
                None => Ok(old(self)@.elecciones.len() as u32),
            },
            r is Ok ==> final(self)@ == (VotacionView {
                elecciones: old(self)@.elecciones.push(
                    EleccionView {
                        id: old(self)@.elecciones.len() as u32,
                        votantes_sin_aceptar: Seq::empty(),
                        candidatos_sin_aceptar: Seq::empty(),
                        votantes: Seq::empty(),
                        candidatos: Seq::empty(),
                        votantes_voto: Seq::empty(),
                        votos: Seq::empty(),
                        fecha_inicio,
                        fecha_fin,
                    },
                ),
                ..old(self)@
            }),
            r is Err ==> final(self)@ == old(self)@,
    {
        if !self.caller_is_admin(caller) {
            return Err(VotacionError::NoEsAdmin);
        }
        if !fecha_inicio.es_fecha_valida() || !fecha_fin.es_fecha_valida() {
            return Err(VotacionError::FechaInvalida);
        }
        if fecha_inicio.es_mayor(&fecha_fin) {
            return Err(VotacionError::FechaInicioMayorQueFin);
        }
        let id = self.elecciones.len() as u32;
        let eleccion = Eleccion::new(id, fecha_inicio, fecha_fin);
        self.elecciones.push(eleccion);
        proof {
            assert(self@.elecciones =~= old(self)@.elecciones.push(eleccion@));
        }
        Ok(id)
    }

    /// The election with id `id`, if there is one.
    pub fn get_eleccion(&self, id: u32) -> (r: Option<Eleccion>)
        ensures
            r is Some <==> id < self@.elecciones.len(),
            r matches Some(e) ==> e@ == self@.elecciones[id as int],
    {
        if (id as usize) < self.elecciones.len() {
            Some(self.elecciones[id as usize].copia())
        } else {
            None
        }
    }

    /// Registers `caller` as a pending user with the given details.
    pub fn crear_usuario(
        &mut self,
        caller: AccountId,
        nombre: String,
        apellido: String,
        direccion: String,
        dni: String,
        edad: u8,
    ) -> (r: Result<Usuario, VotacionError>)
        requires
            old(self)@.wf(),
        ensures
            final(self)@.wf(),
            r == if old(self)@.es_usuario_sin_aceptar(caller) {
                Err(VotacionError::UsuarioNoAceptado)
            } else if old(self)@.es_usuario(caller) {
                Err(VotacionError::UsuarioYaRegistrado)
            } else {
                Ok(Usuario { addres: caller, nombre, apellido, direccion, dni, edad })
            },
            r matches Ok(u) ==> final(self)@ == (VotacionView {
                usuarios_sin_aceptar: old(self)@.usuarios_sin_aceptar.push(u),
                ..old(self)@
            }),
            r is Err ==> final(self)@ == old(self)@,
    {
        if buscar(&self.usuarios_sin_aceptar, &caller).is_some() {
            return Err(VotacionError::UsuarioNoAceptado);
        }
        if buscar(&self.usuarios, &caller).is_some() {
            return Err(VotacionError::UsuarioYaRegistrado);
        }
        let usuario = Usuario::new(caller, nombre, apellido, direccion, dni, edad);
        self.usuarios_sin_aceptar.push(usuario.copia());
        proof {
            let antes = old(self)@;
            assert(direcciones(self@.usuarios_sin_aceptar) =~= direcciones(
                antes.usuarios_sin_aceptar,
            ).push(caller));
            lemma_push_contiene(direcciones(antes.usuarios_sin_aceptar), caller);
        }
        Ok(usuario)
    }

    /// Accepts the pending user `id`; only the admin may.
    pub fn aceptar_usuario(&mut self, caller: AccountId, id: AccountId) -> (r: Result<(), VotacionError>)
        requires
            old(self)@.wf(),
        ensures
            final(self)@.wf(),
            r == if caller != old(self).admin {
                Err(VotacionError::NoEsAdmin)
            } else if !old(self)@.es_usuario_sin_aceptar(id) {
                Err(VotacionError::UsuarioSinAceptarNoEncontrado)
            } else {
                Ok(())
            },
            r is Ok ==> final(self)@ == old(self)@.con_usuario_aceptado(id),
            r is Err ==> final(self)@ == old(self)@,
    {
        if !self.caller_is_admin(caller) {
            return Err(VotacionError::NoEsAdmin);
        }
        match buscar(&self.usuarios_sin_aceptar, &id) {
            None => Err(VotacionError::UsuarioSinAceptarNoEncontrado),
            Some(pos) => {
                let usuario = self.usuarios_sin_aceptar.remove(pos);
                self.usuarios.push(usuario);
                proof {
                    let antes = old(self)@;
                    let da = direcciones(antes.usuarios_sin_aceptar);
                    assert(da[pos as int] == id);
                    assert(direcciones(self@.usuarios_sin_aceptar) =~= da.remove(pos as int));
                    assert(direcciones(self@.usuarios) =~= direcciones(antes.usuarios).push(id));
                    lemma_remove_contiene(da, pos as int);
                    lemma_push_contiene(direcciones(antes.usuarios), id);
                    assert(da.contains(id));
                    assert(!direcciones(antes.usuarios).contains(id));
                    assert(self@.elecciones =~= antes.elecciones);
                    lemma_mismas_elecciones(antes, self@);
                    assert(direcciones(self@.usuarios).no_duplicates());
                    assert(direcciones(self@.usuarios_sin_aceptar).no_duplicates());
                    assert(excluyentes(direcciones(self@.usuarios), direcciones(self@.usuarios_sin_aceptar)));
                }
                Ok(())
            },
        }
    }

    /// The pending user `id`.
    pub fn get_usuario_sin_aceptar(&self, id: AccountId) -> (r: Result<Usuario, VotacionError>)
        ensures
            r == match buscar_usuario(self@.usuarios_sin_aceptar, id) {
                Some(u) => Ok(u),
                None => Err(VotacionError::UsuarioSinAceptarNoEncontrado),
            },
    {
        match buscar(&self.usuarios_sin_aceptar, &id) {
            Some(i) => Ok(self.usuarios_sin_aceptar[i].copia()),
            None => Err(VotacionError::UsuarioSinAceptarNoEncontrado),
        }
    }

    /// The accepted user `id`.
    pub fn get_usuario(&self, id: AccountId) -> (r: Result<Usuario, VotacionError>)
        ensures
            r == match buscar_usuario(self@.usuarios, id) {
                Some(u) => Ok(u),
                None => Err(VotacionError::UsuarioNoEncontrado),
            },
    {
        match buscar(&self.usuarios, &id) {
            Some(i) => Ok(self.usuarios[i].copia()),
            None => Err(VotacionError::UsuarioNoEncontrado),
        }
    }
    /// Nominates `caller`, an accepted user, as candidate in election `id_eleccion` at `ahora`.
    pub fn postular_candidato(&mut self, caller: AccountId, ahora: &Fecha, id_eleccion: u32) -> (r: Result<(), VotacionError>)
        requires
            old(self)@.wf(),
        ensures
            final(self)@.wf(),
            r == resultado(old(self)@.error_postulacion(caller, *ahora, id_eleccion)),
            r is Ok ==> final(self)@ == old(self)@.con_eleccion(
                id_eleccion as int,
                old(self)@.elecciones[id_eleccion as int].con_candidato_postulado(caller),
            ),
            r is Err ==> final(self)@ == old(self)@,
    {
        if buscar(&self.usuarios_sin_aceptar, &caller).is_some() {
            return Err(VotacionError::UsuarioNoAceptado);
        }
        if buscar(&self.usuarios, &caller).is_none() {
            return Err(VotacionError::UsuarioNoEncontrado);
        }
        let i = id_eleccion as usize;
        if i >= self.elecciones.len() {
            return Err(VotacionError::EleccionNoEncontrada);
        }
        proof {
            assert(old(self)@.elecciones[i as int] == old(self).elecciones@[i as int]@);
        }
        let r = self.elecciones[i].postular_candidato(caller, ahora);
        proof {
            assert(self@.elecciones =~= old(self)@.elecciones.update(i as int, self.elecciones@[i as int]@));
            lemma_con_eleccion(old(self)@, i as int, self.elecciones@[i as int]@);
        }
        r
    }

    /// Nominates `caller`, an accepted user, as voter in election `id_eleccion` at `ahora`.
    pub fn postular_votante(&mut self, caller: AccountId, ahora: &Fecha, id_eleccion: u32) -> (r: Result<(), VotacionError>)
        requires
            old(self)@.wf(),
        ensures
            final(self)@.wf(),
            r == resultado(old(self)@.error_postulacion(caller, *ahora, id_eleccion)),
            r is Ok ==> final(self)@ == old(self)@.con_eleccion(
                id_eleccion as int,
                old(self)@.elecciones[id_eleccion as int].con_votante_postulado(caller),
            ),
            r is Err ==> final(self)@ == old(self)@,
    {
        if buscar(&self.usuarios_sin_aceptar, &caller).is_some() {
            return Err(VotacionError::UsuarioNoAceptado);
        }
        if buscar(&self.usuarios, &caller).is_none() {
            return Err(VotacionError::UsuarioNoEncontrado);
        }
        let i = id_eleccion as usize;
        if i >= self.elecciones.len() {
            return Err(VotacionError::EleccionNoEncontrada);
        }
        proof {
            assert(old(self)@.elecciones[i as int] == old(self).elecciones@[i as int]@);
        }
        let r = self.elecciones[i].postular_votante(caller, ahora);
        proof {
            assert(self@.elecciones =~= old(self)@.elecciones.update(i as int, self.elecciones@[i as int]@));
            lemma_con_eleccion(old(self)@, i as int, self.elecciones@[i as int]@);
        }
        r
    }

    /// Accepts the nominated candidate `id_candidato` in election `id_eleccion`; only the admin may.
    pub fn agregar_candidato(&mut self, caller: AccountId, ahora: &Fecha, id_eleccion: u32, id_candidato: AccountId) -> (r: Result<(), VotacionError>)
        requires
            old(self)@.wf(),
        ensures
            final(self)@.wf(),
            r == resultado(old(self)@.error_agregar_candidato(caller, *ahora, id_eleccion, id_candidato)),
            r is Ok ==> final(self)@ == old(self)@.con_eleccion(
                id_eleccion as int,
                old(self)@.elecciones[id_eleccion as int].con_candidato_aceptado(id_candidato),
            ),
            r is Err ==> final(self)@ == old(self)@,
    {
        if !self.caller_is_admin(caller) {
            return Err(VotacionError::NoEsAdmin);
        }
        if buscar(&self.usuarios, &id_candidato).is_none() {
            return Err(VotacionError::UsuarioNoEncontrado);
        }
        let i = id_eleccion as usize;
        if i >= self.elecciones.len() {
            return Err(VotacionError::EleccionNoEncontrada);
        }
        proof {
            assert(old(self)@.elecciones[i as int] == old(self).elecciones@[i as int]@);
        }
        let r = self.elecciones[i].agregar_candidato(id_candidato, ahora);
        proof {
            assert(self@.elecciones =~= old(self)@.elecciones.update(i as int, self.elecciones@[i as int]@));
            lemma_con_eleccion(old(self)@, i as int, self.elecciones@[i as int]@);
        }
        r
    }

    /// Accepts the nominated voter `id_votante` in election `id_eleccion`; only the admin may.
    pub fn agregar_votante(&mut self, caller: AccountId, ahora: &Fecha, id_eleccion: u32, id_votante: AccountId) -> (r: Result<(), VotacionError>)
        requires
            old(self)@.wf(),
        ensures
            final(self)@.wf(),
            r == resultado(old(self)@.error_agregar_votante(caller, *ahora, id_eleccion, id_votante)),
            r is Ok ==> final(self)@ == old(self)@.con_eleccion(
                id_eleccion as int,
                old(self)@.elecciones[id_eleccion as int].con_votante_aceptado(id_votante),
            ),
            r is Err ==> final(self)@ == old(self)@,
    {
        if !self.caller_is_admin(caller) {
            return Err(VotacionError::NoEsAdmin);
        }
        if buscar(&self.usuarios, &id_votante).is_none() {
            return Err(VotacionError::UsuarioNoEncontrado);
        }
        let i = id_eleccion as usize;
        if i >= self.elecciones.len() {
            return Err(VotacionError::EleccionNoEncontrada);
        }
        proof {
            assert(old(self)@.elecciones[i as int] == old(self).elecciones@[i as int]@);
        }
        let r = self.elecciones[i].agregar_votante(id_votante, ahora);
        proof {
            assert(self@.elecciones =~= old(self)@.elecciones.update(i as int, self.elecciones@[i as int]@));
            lemma_con_eleccion(old(self)@, i as int, self.elecciones@[i as int]@);
        }
        r
    }

    /// Records the vote of `caller` for `id_candidato` in election `id_eleccion` at `ahora`.
    pub fn votar(&mut self, caller: AccountId, ahora: &Fecha, id_eleccion: u32, id_candidato: AccountId) -> (r: Result<(), VotacionError>)
        requires
            old(self)@.wf(),
            id_eleccion < old(self)@.elecciones.len() ==> old(self)@.elecciones[id_eleccion as int].votantes_voto.len() < u32::MAX,
        ensures
            final(self)@.wf(),
            r == resultado(old(self)@.error_votar(caller, *ahora, id_eleccion, id_candidato)),
            r is Ok ==> final(self)@ == old(self)@.con_eleccion(
                id_eleccion as int,
                old(self)@.elecciones[id_eleccion as int].con_voto(caller, id_candidato),
            ),
            r is Err ==> final(self)@ == old(self)@,
    {
        if buscar(&self.usuarios, &id_candidato).is_none() || buscar(&self.usuarios, &caller).is_none() {
            return Err(VotacionError::UsuarioNoEncontrado);
        }
        let i = id_eleccion as usize;
        if i >= self.elecciones.len() {
            return Err(VotacionError::EleccionNoEncontrada);
        }
        proof {
            assert(old(self)@.elecciones[i as int] == old(self).elecciones@[i as int]@);
        }
        let r = self.elecciones[i].votar(&caller, &id_candidato, ahora);
        proof {
            assert(self@.elecciones =~= old(self)@.elecciones.update(i as int, self.elecciones@[i as int]@));
            lemma_con_eleccion(old(self)@, i as int, self.elecciones@[i as int]@);
        }
        r
    }

    /// Whether `id_votante`, an accepted user, has voted in election `id_eleccion`; only the admin may ask.
    pub fn ya_voto(&self, caller: AccountId, id_eleccion: u32, id_votante: AccountId) -> (r: Result<bool, VotacionError>)
        ensures
            r == if caller != self.admin {
                Err(VotacionError::NoEsAdmin)
            } else if !self@.es_usuario(id_votante) {
                Err(VotacionError::UsuarioNoEncontrado)
            } else if id_eleccion >= self@.elecciones.len() {
                Err(VotacionError::EleccionNoEncontrada)
            } else {
                Ok(self@.elecciones[id_eleccion as int].votantes_voto.contains(id_votante))
            },
    {
        if !self.caller_is_admin(caller) {
            return Err(VotacionError::NoEsAdmin);
        }
        if buscar(&self.usuarios, &id_votante).is_none() {
            return Err(VotacionError::UsuarioNoEncontrado);
        }
        let i = id_eleccion as usize;
        if i >= self.elecciones.len() {
            return Err(VotacionError::EleccionNoEncontrada);
        }
        Ok(self.elecciones[i].ya_voto(&id_votante))
    }

    /// Whether election `id_eleccion` has started at `ahora`; only the admin may ask.
    pub fn get_iniciada(&self, caller: AccountId, ahora: &Fecha, id_eleccion: u32) -> (r: Result<bool, VotacionError>)
        ensures
            r == if caller != self.admin {
                Err(VotacionError::NoEsAdmin)
            } else if id_eleccion >= self@.elecciones.len() {
                Err(VotacionError::EleccionNoEncontrada)
            } else {
                Ok(self@.elecciones[id_eleccion as int].iniciada(*ahora))
            },
    {
        if !self.caller_is_admin(caller) {
            return Err(VotacionError::NoEsAdmin);
        }
        let i = id_eleccion as usize;
        if i >= self.elecciones.len() {
            return Err(VotacionError::EleccionNoEncontrada);
        }
        Ok(self.elecciones[i].get_inicio(ahora))
    }

    /// Whether election `id_eleccion` is over at `ahora`; only the admin may ask.
    pub fn get_finalizada(&self, caller: AccountId, ahora: &Fecha, id_eleccion: u32) -> (r: Result<bool, VotacionError>)
        ensures
            r == if caller != self.admin {
                Err(VotacionError::NoEsAdmin)
            } else if id_eleccion >= self@.elecciones.len() {
                Err(VotacionError::EleccionNoEncontrada)
            } else {
                Ok(self@.elecciones[id_eleccion as int].finalizada(*ahora))
            },
    {
        if !self.caller_is_admin(caller) {
            return Err(VotacionError::NoEsAdmin);
        }
        let i = id_eleccion as usize;
        if i >= self.elecciones.len() {
            return Err(VotacionError::EleccionNoEncontrada);
        }
        Ok(self.elecciones[i].get_finalizada(ahora))
    }

    /// The votes of `id_candidato` in election `id_eleccion` once it is over; only the admin may ask.
    pub fn get_votos_candidato(&self, caller: AccountId, ahora: &Fecha, id_eleccion: u32, id_candidato: AccountId) -> (r: Result<u32, VotacionError>)
        ensures
            r == if caller != self.admin {
                Err(VotacionError::NoEsAdmin)
            } else if id_eleccion >= self@.elecciones.len() {
                Err(VotacionError::EleccionNoEncontrada)
            } else if !self@.elecciones[id_eleccion as int].finalizada(*ahora) {
                Err(VotacionError::EleccionNoFinalizada)
            } else if !self@.elecciones[id_eleccion as int].candidatos.contains(id_candidato) {
                Err(VotacionError::UsuarioNoEsCandidato)
            } else {
                Ok(self@.elecciones[id_eleccion as int].votos_de(id_candidato))
            },
    {
        if !self.caller_is_admin(caller) {
            return Err(VotacionError::NoEsAdmin);
        }
        let i = id_eleccion as usize;
        if i >= self.elecciones.len() {
            return Err(VotacionError::EleccionNoEncontrada);
        }
        self.elecciones[i].get_votos_candidato(&id_candidato, ahora)
    }

    /// The accepted voters of election `eleccion_id`; only the reporting identity may ask.
    pub fn reporte_registro_votantes(&self, caller: AccountId, eleccion_id: u32) -> (r: Result<Vec<AccountId>, VotacionError>)
        ensures
            caller != self.reporte ==> r == Err::<Vec<AccountId>, VotacionError>(VotacionError::SoloReportes),
            caller == self.reporte && eleccion_id >= self@.elecciones.len() ==> r == Err::<Vec<AccountId>, VotacionError>(VotacionError::EleccionNoEncontrada),
            r is Ok <==> caller == self.reporte && eleccion_id < self@.elecciones.len(),
            r matches Ok(v) ==> v@ == self@.elecciones[eleccion_id as int].votantes,
    {
        if !self.caller_is_reporte(caller) {
            return Err(VotacionError::SoloReportes);
        }
        let i = eleccion_id as usize;
        if i >= self.elecciones.len() {
            return Err(VotacionError::EleccionNoEncontrada);
        }
        Ok(self.elecciones[i].reporte_registro_votantes())
    }

    /// The number of accepted voters and of those who voted in election
    /// `eleccion_id`, once it is over; only the reporting identity may ask.
    pub fn reporte_participacion(&self, caller: AccountId, ahora: &Fecha, eleccion_id: u32) -> (r: Result<(u128, u128), VotacionError>)
        ensures
            r == if caller != self.reporte {
                Err(VotacionError::SoloReportes)
            } else if eleccion_id >= self@.elecciones.len() {
                Err(VotacionError::EleccionNoEncontrada)
            } else if !self@.elecciones[eleccion_id as int].finalizada(*ahora) {
                Err(VotacionError::EleccionNoFinalizada)
            } else {
                Ok((
                    self@.elecciones[eleccion_id as int].votantes.len() as u128,
                    self@.elecciones[eleccion_id as int].votantes_voto.len() as u128,
                ))
            },
            r is Ok ==> self@.elecciones[eleccion_id as int].votantes_voto.len() <= usize::MAX,
    {
        if !self.caller_is_reporte(caller) {
            return Err(VotacionError::SoloReportes);
        }
        let i = eleccion_id as usize;
        if i >= self.elecciones.len() {
            return Err(VotacionError::EleccionNoEncontrada);
        }
        proof {
            assert(self@.elecciones[i as int] == self.elecciones@[i as int]@);
        }
        self.elecciones[i].reporte_participacion(ahora)
    }

    /// The tally of election `eleccion_id` in the order candidates were
    /// accepted, once it is over; only the reporting identity may ask.
    pub fn reporte_resultado(&self, caller: AccountId, ahora: &Fecha, eleccion_id: u32) -> (r: Result<Vec<(AccountId, u32)>, VotacionError>)
        ensures
            r matches Err(e) ==> e == if caller != self.reporte {
                VotacionError::SoloReportes
            } else if eleccion_id >= self@.elecciones.len() {
                VotacionError::EleccionNoEncontrada
            } else {
                VotacionError::EleccionNoFinalizada
            },
            r is Ok <==> caller == self.reporte && eleccion_id < self@.elecciones.len()
                && self@.elecciones[eleccion_id as int].finalizada(*ahora),
            r matches Ok(v) ==> v@ == self@.elecciones[eleccion_id as int].votos,
    {
        if !self.caller_is_reporte(caller) {
            return Err(VotacionError::SoloReportes);
        }
        let i = eleccion_id as usize;
        if i >= self.elecciones.len() {
            return Err(VotacionError::EleccionNoEncontrada);
        }
        self.elecciones[i].reporte_resultado(ahora)
    }
}

} // verus!
