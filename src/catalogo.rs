use vstd::prelude::*;

use crate::cuenta::AccountId;
use crate::errores::ContractError;

verus! {

/// A product that a seller has published.
#[derive(Debug, PartialEq, Eq)]
pub struct Producto {
    pub nombre: String,
    pub descripcion: String,
    /// Unit price.
    pub precio: u128,
    /// Units in stock.
    pub cantidad: u32,
    /// Grouping key of the category statistics.
    pub categoria: String,
    /// The seller that published it.
    pub vendedor: AccountId,
}

impl Clone for Producto {
    fn clone(&self) -> (r: Producto)
        ensures
            r == *self,
    {
        Producto {
            nombre: self.nombre.clone(),
            descripcion: self.descripcion.clone(),
            precio: self.precio,
            cantidad: self.cantidad,
            categoria: self.categoria.clone(),
            vendedor: self.vendedor,
        }
    }
}

impl Producto {
    /// No text field is empty and neither price nor quantity is zero.
    pub open spec fn datos_validos(&self) -> bool {
        &&& self.nombre@.len() > 0
        &&& self.descripcion@.len() > 0
        &&& self.categoria@.len() > 0
        &&& self.precio > 0
        &&& self.cantidad > 0
    }

    /// Fails with `DatosInvalidos` unless the fields are valid.
    pub fn validar(&self) -> (r: Result<(), ContractError>)
        ensures
            self.datos_validos() ==> r == Ok::<(), ContractError>(()),
            !self.datos_validos() ==> r == Err::<(), ContractError>(ContractError::DatosInvalidos),
    {
        if self.nombre.as_str().is_empty() || self.descripcion.as_str().is_empty()
            || self.categoria.as_str().is_empty() {
            return Err(ContractError::DatosInvalidos);
        }
        if self.precio == 0 || self.cantidad == 0 {
            return Err(ContractError::DatosInvalidos);
        }
        Ok(())
    }

    /// Puts `cantidad` units back in stock; fails with `Overflow`, changing
    /// nothing, where the stock would pass its ceiling.
    pub fn aumentar_stock(&mut self, cantidad: u32) -> (r: Result<(), ContractError>)
        ensures
            old(self).cantidad + cantidad <= u32::MAX ==> r == Ok::<(), ContractError>(())
                && *final(self) == (Producto {
                cantidad: (old(self).cantidad + cantidad) as u32,
                ..*old(self)
            }),
            old(self).cantidad + cantidad > u32::MAX ==> r == Err::<(), ContractError>(
                ContractError::Overflow,
            ) && *final(self) == *old(self),
    {
        match self.cantidad.checked_add(cantidad) {
            Some(n) => {
                self.cantidad = n;
                Ok(())
            },
            None => Err(ContractError::Overflow),
        }
    }
}

} // verus!
