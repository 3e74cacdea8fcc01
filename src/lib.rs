//! Permissioned elections: user registration with admin approval, per-election
//! nomination and approval of candidates and voters, time-gated voting and
//! post-close reports.

pub mod cuenta;
pub mod eleccion;
pub mod errores;
pub mod fecha;
pub mod reportes;
pub mod usuario;
pub mod votacion;

pub use cuenta::AccountId;
pub use eleccion::{Eleccion, EleccionView};
pub use errores::VotacionError;
pub use fecha::{Fecha, DESFASE_SEGUNDOS, SEGUNDOS_HASTA_1970};
pub use reportes::{DataParticipacion, DataRegistroVotantes, DataResultado, Reportes};
pub use usuario::Usuario;
pub use votacion::{Votacion, VotacionView};
