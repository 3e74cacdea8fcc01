use vstd::prelude::*;

verus! {

/// Every way an operation of the election system can be refused.
#[derive(Debug, Clone, Copy, PartialEq, Eq, Structural)]
pub enum VotacionError {
    FechaInvalida,
    FechaInicioMayorQueFin,
    NoEsAdmin,
    UsuarioYaRegistrado,
    UsuarioNoRegistrado,
    UsuarioSinAceptarNoEncontrado,
    UsuarioNoAceptado,
    UsuarioNoEncontrado,
    EleccionNoEncontrada,
    EleccionYaIniciada,
    EleccionYaFinalizada,
    UsuarioNoEsVotante,
    UsuarioNoEsCandidato,
    UsuarioEsVotante,
    UsuarioEsCandidato,
    EleccionNoIniciada,
    EleccionNoFinalizada,
    UsuarioYaVoto,
    UsuarioNoPostuladoCandidato,
    UsuarioNoPostuladoVotante,
    UsuarioEsPostuladoCandidato,
    UsuarioEsPostuladoVotante,
    SoloReportes,
}

impl VotacionError {
    /// The message that describes the error to a user.
    pub open spec fn texto(self) -> &'static str {
        match self {
            VotacionError::FechaInvalida => "Fecha inválida",
            VotacionError::FechaInicioMayorQueFin => "La fecha de inicio es mayor que la fecha de fin",
            VotacionError::NoEsAdmin => "No es admin",
            VotacionError::UsuarioYaRegistrado => "Usuario ya registrado",
            VotacionError::UsuarioNoRegistrado => "Usuario no registrado",
            VotacionError::UsuarioSinAceptarNoEncontrado => "Usuario sin aceptar no encontrado",
            VotacionError::UsuarioNoAceptado => "Usuario no aceptado",
            VotacionError::UsuarioNoEncontrado => "Usuario no encontrado",
            VotacionError::EleccionNoEncontrada => "Elección no encontrada",
            VotacionError::EleccionYaIniciada => "Elección ya iniciada",
            VotacionError::EleccionYaFinalizada => "Elección ya finalizada",
            VotacionError::UsuarioNoEsVotante => "Usuario no es votante",
            VotacionError::UsuarioNoEsCandidato => "Usuario no es candidato",
            VotacionError::UsuarioEsVotante => "Usuario es votante",
            VotacionError::UsuarioEsCandidato => "Usuario es candidato",
            VotacionError::EleccionNoIniciada => "Elección no iniciada",
            VotacionError::EleccionNoFinalizada => "Elección no finalizada",
            VotacionError::UsuarioYaVoto => "Usuario ya voto",
            VotacionError::UsuarioNoPostuladoCandidato => "Usuario no postulado como candidato",
            VotacionError::UsuarioNoPostuladoVotante => "Usuario no postulado como votante",
            VotacionError::UsuarioEsPostuladoCandidato => "Usuario postulado como candidato",
            VotacionError::UsuarioEsPostuladoVotante => "Usuario postulado como votante",
            VotacionError::SoloReportes => "Solo el contrato Reportes puede realizar esta operación",
        }
    }

    /// The message that describes the error to a user.
    pub fn mensaje(&self) -> (r: String)
        ensures
            r@ == self.texto()@,
    {
        let texto: &str = match self {
            VotacionError::FechaInvalida => "Fecha inválida",
            VotacionError::FechaInicioMayorQueFin => "La fecha de inicio es mayor que la fecha de fin",
            VotacionError::NoEsAdmin => "No es admin",
            VotacionError::UsuarioYaRegistrado => "Usuario ya registrado",
            VotacionError::UsuarioNoRegistrado => "Usuario no registrado",
            VotacionError::UsuarioSinAceptarNoEncontrado => "Usuario sin aceptar no encontrado",
            VotacionError::UsuarioNoAceptado => "Usuario no aceptado",
            VotacionError::UsuarioNoEncontrado => "Usuario no encontrado",
            VotacionError::EleccionNoEncontrada => "Elección no encontrada",
            VotacionError::EleccionYaIniciada => "Elección ya iniciada",
            VotacionError::EleccionYaFinalizada => "Elección ya finalizada",
            VotacionError::UsuarioNoEsVotante => "Usuario no es votante",
            VotacionError::UsuarioNoEsCandidato => "Usuario no es candidato",
            VotacionError::UsuarioEsVotante => "Usuario es votante",
            VotacionError::UsuarioEsCandidato => "Usuario es candidato",
            VotacionError::EleccionNoIniciada => "Elección no iniciada",
            VotacionError::EleccionNoFinalizada => "Elección no finalizada",
            VotacionError::UsuarioYaVoto => "Usuario ya voto",
            VotacionError::UsuarioNoPostuladoCandidato => "Usuario no postulado como candidato",
            VotacionError::UsuarioNoPostuladoVotante => "Usuario no postulado como votante",
            VotacionError::UsuarioEsPostuladoCandidato => "Usuario postulado como candidato",
            VotacionError::UsuarioEsPostuladoVotante => "Usuario postulado como votante",
            VotacionError::SoloReportes => "Solo el contrato Reportes puede realizar esta operación",
        };
        texto.to_owned()
    }
}

} // verus!
