//! Business core of a peer-to-peer marketplace: account roles, a product
//! catalog with stock, purchase orders with mutual cancellation, and
//! bilateral reputation with per-product and per-category statistics.
//!
//! Every operation of [`Marketplace`] behaves as its counterpart on the
//! abstract state [`MarketplaceVista`]: a total function from the state, the
//! caller's account and the arguments to the next state and a result or a
//! typed [`ContractError`]. A failed operation leaves the state as it was.
//! [`ReportesView`] ranks and rolls up the results of the marketplace's
//! queries.

mod asociacion;
mod catalogo;
mod cuenta;
mod errores;
mod invariantes;
mod leyes;
mod marketplace;
mod orden;
mod reportes;
mod reputacion;
mod roles;
mod vista;

pub use catalogo::Producto;
pub use cuenta::AccountId;
pub use errores::ContractError;
pub use leyes::{
    ley_calificaciones,
    ley_cancelacion_mutua,
    ley_conservacion_stock,
    ley_estados_avanzan,
    ley_invariante,
    ley_registro,
    ley_roles_se_amplian,
    modificar_varias,
    ordenes_avanzan,
};
pub use marketplace::Marketplace;
pub use orden::{EstadoOrden, Orden};
pub use reportes::{
    acumulado,
    ampliar,
    antes_de,
    aparece,
    es_ranking,
    lemma_ranking_unico,
    obtener_top,
    ordenar_por_valor,
    promedios,
    ranking_de,
    reducir,
    sumar_estadisticas,
    texto_menor,
    ReportesError,
    ReportesView,
};
pub use reputacion::{media, CalificacionesOrden, ReputacionData};
pub use roles::Roles;
pub use vista::{
    acumular,
    aporte,
    comprometido,
    con_reputacion,
    lista_de,
    listado,
    proyeccion,
    MarketplaceVista,
};
