use vstd::prelude::*;

use crate::cuenta::AccountId;

verus! {

/// Where an order stands. `Pendiente -> Enviado -> Recibido` is the path of
/// a completed sale; `Pendiente` and `Enviado` may end in `Cancelada` when
/// both parties agree. `Recibido` and `Cancelada` are final.
#[derive(Clone, Copy, PartialEq, Eq, Debug, Structural)]
pub enum EstadoOrden {
    Pendiente,
    Enviado,
    Recibido,
    Cancelada,
}

impl EstadoOrden {
    /// The states from which the parties can still cancel.
    pub open spec fn cancelable(self) -> bool {
        self == EstadoOrden::Pendiente || self == EstadoOrden::Enviado
    }

    /// `siguiente` is this state or one that the order may move on to: the
    /// states form a forward-only graph.
    pub open spec fn avanza_a(self, siguiente: EstadoOrden) -> bool {
        ||| self == siguiente
        ||| self == EstadoOrden::Pendiente && siguiente == EstadoOrden::Enviado
        ||| self == EstadoOrden::Enviado && siguiente == EstadoOrden::Recibido
        ||| self.cancelable() && siguiente == EstadoOrden::Cancelada
    }
}

/// A purchase order: who buys, who sells (copied from the product when the
/// order is made), what and how much, its state and each party's consent
/// to cancel.
#[derive(Clone, Copy, Debug, PartialEq, Eq)]
pub struct Orden {
    pub comprador: AccountId,
    pub vendedor: AccountId,
    pub producto_id: u128,
    pub cantidad: u32,
    pub estado: EstadoOrden,
    pub comprador_acepta_cancelar: bool,
    pub vendedor_acepta_cancelar: bool,
}

impl Orden {
    /// Whether the order can still be cancelled.
    pub fn puede_cancelarse(&self) -> (r: bool)
        ensures
            r == self.estado.cancelable(),
    {
        match self.estado {
            EstadoOrden::Pendiente | EstadoOrden::Enviado => true,
            _ => false,
        }
    }

    /// Moves the order to `Cancelada` if both parties consent; tells whether
    /// it did.
    pub fn marcar_cancelada_si_ambos_aceptan(&mut self) -> (r: bool)
        ensures
            r == (old(self).comprador_acepta_cancelar && old(self).vendedor_acepta_cancelar),
            r ==> *final(self) == (Orden { estado: EstadoOrden::Cancelada, ..*old(self) }),
            !r ==> *final(self) == *old(self),
    {
        if self.comprador_acepta_cancelar && self.vendedor_acepta_cancelar {
            self.estado = EstadoOrden::Cancelada;
            true
        } else {
            false
        }
    }
}

} // verus!
