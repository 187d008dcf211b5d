use vstd::prelude::*;

use crate::errores::ContractError;

verus! {

/// The two optional scores of a received order: the buyer's score of the
/// seller and the seller's score of the buyer, each from 1 to 5.
#[derive(Clone, Copy, PartialEq, Eq, Debug, Structural)]
pub struct CalificacionesOrden {
    /// Score the buyer gave the seller.
    pub calificacion_comprador: Option<u8>,
    /// Score the seller gave the buyer.
    pub calificacion_vendedor: Option<u8>,
}

impl CalificacionesOrden {
    /// The record an order gets when it is received: no score on either side.
    pub open spec fn vacias() -> CalificacionesOrden {
        CalificacionesOrden { calificacion_comprador: None, calificacion_vendedor: None }
    }
}

/// Integer average of `total` scores that add up to `suma`; absent when
/// there is no score.
pub open spec fn media(suma: u128, total: u32) -> Option<u128> {
    if total > 0 {
        Some((suma / (total as u128)) as u128)
    } else {
        None
    }
}

/// Ratings an account has received, as buyer and as seller.
#[derive(Clone, Copy, PartialEq, Eq, Debug, Structural)]
pub struct ReputacionData {
    /// Number of scores received as buyer.
    pub total_calificaciones_comprador: u32,
    /// Sum of the scores received as buyer.
    pub suma_calificaciones_comprador: u128,
    /// Number of scores received as seller.
    pub total_calificaciones_vendedor: u32,
    /// Sum of the scores received as seller.
    pub suma_calificaciones_vendedor: u128,
}

impl ReputacionData {
    /// The aggregate of an account that has received no score.
    pub open spec fn cero() -> ReputacionData {
        ReputacionData {
            total_calificaciones_comprador: 0,
            suma_calificaciones_comprador: 0,
            total_calificaciones_vendedor: 0,
            suma_calificaciones_vendedor: 0,
        }
    }

    /// A buyer score of `c` can be counted without passing a ceiling.
    pub open spec fn admite_como_comprador(self, c: u8) -> bool {
        self.total_calificaciones_comprador < u32::MAX
            && self.suma_calificaciones_comprador + c <= u128::MAX
    }

    /// A seller score of `c` can be counted without passing a ceiling.
    pub open spec fn admite_como_vendedor(self, c: u8) -> bool {
        self.total_calificaciones_vendedor < u32::MAX
            && self.suma_calificaciones_vendedor + c <= u128::MAX
    }

    /// The aggregate with one more buyer score `c`.
    pub open spec fn con_calificacion_comprador(self, c: u8) -> ReputacionData {
        ReputacionData {
            total_calificaciones_comprador: (self.total_calificaciones_comprador + 1) as u32,
            suma_calificaciones_comprador: (self.suma_calificaciones_comprador + c) as u128,
            ..self
        }
    }

    /// The aggregate with one more seller score `c`.
    pub open spec fn con_calificacion_vendedor(self, c: u8) -> ReputacionData {
        ReputacionData {
            total_calificaciones_vendedor: (self.total_calificaciones_vendedor + 1) as u32,
            suma_calificaciones_vendedor: (self.suma_calificaciones_vendedor + c) as u128,
            ..self
        }
    }

    pub fn new() -> (r: ReputacionData)
        ensures
            r == ReputacionData::cero(),
    {
        ReputacionData {
            total_calificaciones_comprador: 0,
            suma_calificaciones_comprador: 0,
            total_calificaciones_vendedor: 0,
            suma_calificaciones_vendedor: 0,
        }
    }

    /// Average score received as buyer, absent when there is none.
    pub fn promedio_comprador(&self) -> (r: Option<u128>)
        ensures
            r == media(self.suma_calificaciones_comprador, self.total_calificaciones_comprador),
    {
        if self.total_calificaciones_comprador > 0 {
            self.suma_calificaciones_comprador.checked_div(self.total_calificaciones_comprador as u128)
        } else {
            None
        }
    }

    /// Average score received as seller, absent when there is none.
    pub fn promedio_vendedor(&self) -> (r: Option<u128>)
        ensures
            r == media(self.suma_calificaciones_vendedor, self.total_calificaciones_vendedor),
    {
        if self.total_calificaciones_vendedor > 0 {
            self.suma_calificaciones_vendedor.checked_div(self.total_calificaciones_vendedor as u128)
        } else {
            None
        }
    }

    /// Counts a score received as buyer; fails with `Overflow`, changing
    /// nothing, where the count or the sum would pass its ceiling.
    pub fn agregar_calificacion_comprador(&mut self, calificacion: u8) -> (r: Result<(), ContractError>)
        ensures
            old(self).admite_como_comprador(calificacion) ==> r == Ok::<(), ContractError>(())
                && *final(self) == old(self).con_calificacion_comprador(calificacion),
            !old(self).admite_como_comprador(calificacion) ==> r == Err::<(), ContractError>(
                ContractError::Overflow,
            ) && *final(self) == *old(self),
    {
        let total = match self.total_calificaciones_comprador.checked_add(1) {
            Some(t) => t,
            None => return Err(ContractError::Overflow),
        };
        let suma = match self.suma_calificaciones_comprador.checked_add(calificacion as u128) {
            Some(s) => s,
            None => return Err(ContractError::Overflow),
        };
        self.total_calificaciones_comprador = total;
        self.suma_calificaciones_comprador = suma;
        Ok(())
    }

    /// Counts a score received as seller; fails with `Overflow`, changing
    /// nothing, where the count or the sum would pass its ceiling.
    pub fn agregar_calificacion_vendedor(&mut self, calificacion: u8) -> (r: Result<(), ContractError>)
        ensures
            old(self).admite_como_vendedor(calificacion) ==> r == Ok::<(), ContractError>(())
                && *final(self) == old(self).con_calificacion_vendedor(calificacion),
            !old(self).admite_como_vendedor(calificacion) ==> r == Err::<(), ContractError>(
                ContractError::Overflow,
            ) && *final(self) == *old(self),
    {
        let total = match self.total_calificaciones_vendedor.checked_add(1) {
            Some(t) => t,
            None => return Err(ContractError::Overflow),
        };
        let suma = match self.suma_calificaciones_vendedor.checked_add(calificacion as u128) {
            Some(s) => s,
            None => return Err(ContractError::Overflow),
        };
        self.total_calificaciones_vendedor = total;
        self.suma_calificaciones_vendedor = suma;
        Ok(())
    }
}

impl Default for ReputacionData {
    fn default() -> (r: ReputacionData)
        ensures
            r == ReputacionData::cero(),
    {
        ReputacionData::new()
    }
}

} // verus!
