use vstd::prelude::*;

use crate::errores::ContractError;

verus! {

/// The permission class of an account.
#[derive(Clone, Copy, PartialEq, Eq, Debug, Structural)]
pub enum Roles {
    Comprador,
    Vendedor,
    Ambos,
}

impl Roles {
    /// The role grants the buyer capability.
    pub open spec fn compra(self) -> bool {
        self == Roles::Comprador || self == Roles::Ambos
    }

    /// The role grants the seller capability.
    pub open spec fn vende(self) -> bool {
        self == Roles::Vendedor || self == Roles::Ambos
    }

    /// The role whose capabilities are `compra` and `vende`; a role always
    /// grants at least one of them.
    pub open spec fn con_capacidades(compra: bool, vende: bool) -> Roles {
        if compra && vende {
            Roles::Ambos
        } else if vende {
            Roles::Vendedor
        } else {
            Roles::Comprador
        }
    }

    /// Widen-only merge: the role whose capabilities are the union of both.
    pub open spec fn combinar(self, otro: Roles) -> Roles {
        Roles::con_capacidades(self.compra() || otro.compra(), self.vende() || otro.vende())
    }

    pub fn es_comprador(&self) -> (r: bool)
        ensures
            r == self.compra(),
    {
        match self {
            Roles::Comprador | Roles::Ambos => true,
            Roles::Vendedor => false,
        }
    }

    pub fn es_vendedor(&self) -> (r: bool)
        ensures
            r == self.vende(),
    {
        match self {
            Roles::Vendedor | Roles::Ambos => true,
            Roles::Comprador => false,
        }
    }

    /// Adds the capabilities of `nuevo_rol` to this role. Capabilities are
    /// never removed: asking for fewer leaves the current ones in place, so
    /// the merge never fails.
    pub fn agregar_rol(&self, nuevo_rol: Roles) -> (r: Result<Roles, ContractError>)
        ensures
            r == Ok::<Roles, ContractError>(self.combinar(nuevo_rol)),
    {
        match (self, nuevo_rol) {
            (Roles::Ambos, _) => Ok(Roles::Ambos),
            (_, Roles::Ambos) => Ok(Roles::Ambos),
            (Roles::Comprador, Roles::Vendedor) => Ok(Roles::Ambos),
            (Roles::Vendedor, Roles::Comprador) => Ok(Roles::Ambos),
            _ => Ok(*self),
        }
    }
}

} // verus!
