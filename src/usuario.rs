use crate::cuenta::AccountId;
use vstd::prelude::*;

verus! {

/// A registered participant. Created once per identity; only its membership
/// in the pending or accepted list ever changes.
#[derive(Debug, Clone, PartialEq)]
pub struct Usuario {
    pub addres: AccountId,
    pub nombre: String,
    pub apellido: String,
    pub direccion: String,
    pub dni: String,
    pub edad: u8,
}

impl Usuario {
    /// A user record with the given fields; none of them is checked.
    pub fn new(
        addres: AccountId,
        nombre: String,
        apellido: String,
        direccion: String,
        dni: String,
        edad: u8,
    ) -> (r: Usuario)
        ensures
            r == (Usuario { addres, nombre, apellido, direccion, dni, edad }),
    {
        Usuario { addres, nombre, apellido, direccion, dni, edad }
    }

    /// A copy of the record, field by field.
    pub fn copia(&self) -> (r: Usuario)
        ensures
            r == *self,
    {
        Usuario {
            addres: self.addres,
            nombre: self.nombre.clone(),
            apellido: self.apellido.clone(),
            direccion: self.direccion.clone(),
            dni: self.dni.clone(),
            edad: self.edad,
        }
    }

    /// The identity of the user.
    pub fn get_addres(&self) -> (r: AccountId)
        ensures
            r == self.addres,
    {
        self.addres
    }

    /// The user's first name.
    pub fn get_nombre(&self) -> (r: String)
        ensures
            r == self.nombre,
    {
        self.nombre.clone()
    }

    /// The user's last name.
    pub fn get_apellido(&self) -> (r: String)
        ensures
            r == self.apellido,
    {
        self.apellido.clone()
    }

    /// The user's address.
    pub fn get_direccion(&self) -> (r: String)
        ensures
            r == self.direccion,
    {
        self.direccion.clone()
    }

    /// The user's national id, as given.
    pub fn get_dni(&self) -> (r: String)
        ensures
            r == self.dni,
    {
        self.dni.clone()
    }

    /// The user's age, as given.
    pub fn get_edad(&self) -> (r: u8)
        ensures
            r == self.edad,
    {
        self.edad
    }
}

} // verus!
