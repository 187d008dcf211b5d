use vstd::prelude::*;

verus! {

/// Every way in which an operation of the marketplace can fail.
#[derive(Clone, Copy, PartialEq, Eq, Debug, Structural)]
pub enum ContractError {
    /// The account already holds a role.
    YaRegistrado,
    /// The account holds no role yet.
    UsuarioNoRegistrado,
    /// The caller's role does not grant the seller capability.
    NoVendedor,
    /// The caller is not the party the operation belongs to.
    NoAutorizado,
    /// No product has the given identifier.
    ProductoNoEncontrado,
    /// The requested quantity is zero or exceeds the stock.
    StockInsuficiente,
    /// No order has the given identifier.
    OrdenNoExiste,
    /// The order's state does not allow the transition.
    EstadoInvalido,
    /// A counter or an identifier would pass its numeric ceiling.
    Overflow,
    /// A product field is empty or zero.
    DatosInvalidos,
    /// A role change would take a capability away.
    NoSePuedeQuitarRol,
    /// A score outside 1..=5.
    CalificacionInvalida,
    /// The party already rated this order.
    YaCalificado,
    /// The order has not been received yet.
    OrdenNoRecibida,
}

} // verus!
