//! Properties of the marketplace that span several operations, stated over
//! the operations' abstract counterparts in `MarketplaceVista` and proved.
use vstd::prelude::*;

use crate::catalogo::Producto;
use crate::cuenta::AccountId;
use crate::errores::ContractError;
use crate::marketplace::Marketplace;
use crate::invariantes::{
    lemma_aceptar_cancelacion_invariante,
    lemma_calificar_comprador_invariante,
    lemma_calificar_vendedor_invariante,
    lemma_crear_orden_invariante,
    lemma_marcar_enviada_invariante,
    lemma_marcar_recibida_invariante,
    lemma_modificar_rol_invariante,
    lemma_publicar_invariante,
    lemma_registrar_invariante,
    lemma_solicitar_cancelacion_invariante,
};
use crate::orden::{EstadoOrden, Orden};
use crate::roles::Roles;
use crate::vista::{aporte, comprometido, exito, fallo, MarketplaceVista};

verus! {

/// The state after `a` supplies each role of `cambios` in turn to
/// `modificar_rol`.
pub open spec fn modificar_varias(v: MarketplaceVista, a: AccountId, cambios: Seq<Roles>) -> MarketplaceVista
    decreases cambios.len(),
{
    if cambios.len() == 0 {
        v
    } else {
        modificar_varias(v, a, cambios.drop_last()).modificar_rol(a, cambios.last()).0
    }
}

/// Every order of `v` is still in `w`, in the same state or in one that the
/// forward-only graph of states allows after it.
pub open spec fn ordenes_avanzan(v: MarketplaceVista, w: MarketplaceVista) -> bool {
    forall|k: u128| #[trigger]
        v.ordenes.contains_key(k) ==> w.ordenes.contains_key(k) && v.ordenes[k].estado.avanza_a(
            w.ordenes[k].estado,
        )
}

/// Once an account has registered, registering it again fails with
/// `YaRegistrado` and changes nothing; changing the role of an account that
/// has not registered fails with `UsuarioNoRegistrado` and changes nothing,
/// as it does in a new marketplace.
pub proof fn ley_registro(v: MarketplaceVista, a: AccountId, primero: Roles, segundo: Roles)
    ensures
        v.registrar(a, primero).1 is Ok ==> {
            let w = v.registrar(a, primero).0;
            w.registrar(a, segundo) == (w, fallo(ContractError::YaRegistrado))
        },
        !v.roles.contains_key(a) ==> v.modificar_rol(a, segundo) == (
            v,
            fallo(ContractError::UsuarioNoRegistrado),
        ),
        MarketplaceVista::inicial(1, 1).modificar_rol(a, segundo) == (
            MarketplaceVista::inicial(1, 1),
            fallo(ContractError::UsuarioNoRegistrado),
        ),
{
}

/// Role changes only widen: after any sequence of them a registered account
/// has exactly the capabilities of its role before and of every role
/// supplied. Supplying the same role twice does what supplying it once
/// does, and an account with both capabilities keeps `Ambos`.
pub proof fn ley_roles_se_amplian(v: MarketplaceVista, a: AccountId, cambios: Seq<Roles>, rol: Roles)
    requires
        v.roles.contains_key(a),
    ensures
        modificar_varias(v, a, cambios).roles.contains_key(a),
        modificar_varias(v, a, cambios).roles[a].compra() == (v.roles[a].compra() || exists|i: int|
            0 <= i < cambios.len() && cambios[i].compra()),
        modificar_varias(v, a, cambios).roles[a].vende() == (v.roles[a].vende() || exists|i: int|
            0 <= i < cambios.len() && cambios[i].vende()),
        v.roles[a] == Roles::Ambos ==> modificar_varias(v, a, cambios).roles[a] == Roles::Ambos,
        v.modificar_rol(a, rol).0.modificar_rol(a, rol) == (v.modificar_rol(a, rol).0, exito()),
    decreases cambios.len(),
{
    let w = v.modificar_rol(a, rol).0;
    assert(w.roles.insert(a, w.roles[a].combinar(rol)) =~= w.roles);
    assert(w == MarketplaceVista { roles: w.roles.insert(a, w.roles[a].combinar(rol)), ..w });
    if cambios.len() > 0 {
        let previos = cambios.drop_last();
        ley_roles_se_amplian(v, a, previos, rol);
        if exists|i: int| 0 <= i < previos.len() && previos[i].compra() {
            let i = choose|i: int| 0 <= i < previos.len() && previos[i].compra();
            assert(cambios[i].compra());
        }
        if exists|i: int| 0 <= i < previos.len() && previos[i].vende() {
            let i = choose|i: int| 0 <= i < previos.len() && previos[i].vende();
            assert(cambios[i].vende());
        }
        if exists|i: int| 0 <= i < cambios.len() && cambios[i].compra() {
            let i = choose|i: int| 0 <= i < cambios.len() && cambios[i].compra();
            if i < previos.len() {
                assert(previos[i].compra());
            }
        }
        if exists|i: int| 0 <= i < cambios.len() && cambios[i].vende() {
            let i = choose|i: int| 0 <= i < cambios.len() && cambios[i].vende();
            if i < previos.len() {
                assert(previos[i].vende());
            }
        }
    }
}

/// A new marketplace satisfies the invariant, and every operation keeps it;
/// so in every reachable state each product's stock plus the units held by
/// its open orders is the stock it was published with.
pub proof fn ley_invariante(
    v: MarketplaceVista,
    caller: AccountId,
    rol: Roles,
    producto: Producto,
    producto_id: u128,
    cantidad: u32,
    orden_id: u128,
    calificacion: u8,
)
    requires
        v.invariante(),
    ensures
        MarketplaceVista::inicial(1, 1).invariante(),
        v.registrar(caller, rol).0.invariante(),
        v.modificar_rol(caller, rol).0.invariante(),
        v.publicar(caller, producto).0.invariante(),
        v.crear_orden(caller, producto_id, cantidad).0.invariante(),
        v.marcar_enviada(caller, orden_id).0.invariante(),
        v.marcar_recibida(caller, orden_id).0.invariante(),
        v.solicitar_cancelacion(caller, orden_id).0.invariante(),
        v.aceptar_cancelacion(caller, orden_id).0.invariante(),
        v.calificar_vendedor(caller, orden_id, calificacion).0.invariante(),
        v.calificar_comprador(caller, orden_id, calificacion).0.invariante(),
{
    lemma_registrar_invariante(v, caller, rol);
    lemma_modificar_rol_invariante(v, caller, rol);
    lemma_publicar_invariante(v, caller, producto);
    lemma_crear_orden_invariante(v, caller, producto_id, cantidad);
    lemma_marcar_enviada_invariante(v, caller, orden_id);
    lemma_marcar_recibida_invariante(v, caller, orden_id);
    lemma_solicitar_cancelacion_invariante(v, caller, orden_id);
    lemma_aceptar_cancelacion_invariante(v, caller, orden_id);
    lemma_calificar_vendedor_invariante(v, caller, orden_id, calificacion);
    lemma_calificar_comprador_invariante(v, caller, orden_id, calificacion);
}

/// Stock conservation: in every marketplace that the operations reach, a
/// product's stock plus the units of its orders that are not cancelled is
/// its initial stock, and an order for more units than the stock never
/// succeeds.
pub proof fn ley_conservacion_stock(m: &Marketplace, p: u128, caller: AccountId, cantidad: u32)
    requires
        m.bien_formado(),
        m@.productos.contains_key(p),
    ensures
        m@.productos[p].cantidad + comprometido(m@.ordenes, p, m@.siguiente_orden_id as int)
            == m@.stock_inicial[p],
        cantidad > m@.productos[p].cantidad ==> m@.crear_orden(caller, p, cantidad).1 is Err,
        cantidad > m@.productos[p].cantidad ==> m@.crear_orden(caller, p, cantidad).0 == m@,
{
    m.lemma_invariante();
}

/// Orders only move forward: under every operation each order stays and its
/// state either stays or takes a step that the graph of states allows (so a
/// received order is never cancelled), and the buyer cannot receive an
/// order that is still pending.
pub proof fn ley_estados_avanzan(
    v: MarketplaceVista,
    caller: AccountId,
    rol: Roles,
    producto: Producto,
    producto_id: u128,
    cantidad: u32,
    orden_id: u128,
    calificacion: u8,
)
    requires
        v.invariante(),
    ensures
        ordenes_avanzan(v, v.registrar(caller, rol).0),
        ordenes_avanzan(v, v.modificar_rol(caller, rol).0),
        ordenes_avanzan(v, v.publicar(caller, producto).0),
        ordenes_avanzan(v, v.crear_orden(caller, producto_id, cantidad).0),
        ordenes_avanzan(v, v.marcar_enviada(caller, orden_id).0),
        ordenes_avanzan(v, v.marcar_recibida(caller, orden_id).0),
        ordenes_avanzan(v, v.solicitar_cancelacion(caller, orden_id).0),
        ordenes_avanzan(v, v.aceptar_cancelacion(caller, orden_id).0),
        ordenes_avanzan(v, v.calificar_vendedor(caller, orden_id, calificacion).0),
        ordenes_avanzan(v, v.calificar_comprador(caller, orden_id, calificacion).0),
        v.ordenes.contains_key(orden_id) && v.ordenes[orden_id].comprador == caller
            && v.ordenes[orden_id].estado == EstadoOrden::Pendiente ==> v.marcar_recibida(
            caller,
            orden_id,
        ) == (v, fallo(ContractError::EstadoInvalido)),
{
    let oid = v.siguiente_orden_id;
    assert(!v.ordenes.contains_key(oid));
}

/// The units of one open order are part of what the open orders hold.
proof fn lemma_comprometido_cota(m: Map<u128, Orden>, p: u128, n: int, k: int)
    requires
        0 <= k < n,
    ensures
        aporte(m, k, p) <= comprometido(m, p, n),
    decreases n,
{
    if k < n - 1 {
        lemma_comprometido_cota(m, p, n - 1, k);
    }
    lemma_comprometido_no_negativo(m, p, n - 1);
}

proof fn lemma_comprometido_no_negativo(m: Map<u128, Orden>, p: u128, n: int)
    ensures
        comprometido(m, p, n) >= 0,
    decreases n,
{
    if n > 0 {
        lemma_comprometido_no_negativo(m, p, n - 1);
    }
}

/// Mutual cancellation of an open order without consents: one party's
/// consent leaves its state and the stock as they were, and repeating it
/// changes nothing; after both consents, in either order, the order is
/// cancelled and its units are back in stock once: a further consent from
/// either party fails with `EstadoInvalido` and changes nothing.
pub proof fn ley_cancelacion_mutua(v: MarketplaceVista, id: u128)
    requires
        v.invariante(),
        v.ordenes.contains_key(id),
        v.ordenes[id].estado.cancelable(),
        !v.ordenes[id].comprador_acepta_cancelar,
        !v.ordenes[id].vendedor_acepta_cancelar,
    ensures
        ({
            let o = v.ordenes[id];
            let p = o.producto_id;
            let (v1, r1) = v.solicitar_cancelacion(o.comprador, id);
            let (v2, r2) = v1.aceptar_cancelacion(o.vendedor, id);
            &&& r1 == exito()
            &&& v1.ordenes[id].estado == o.estado
            &&& v1.productos == v.productos
            &&& v1.solicitar_cancelacion(o.comprador, id) == (v1, exito())
            &&& r2 == exito()
            &&& v2.ordenes[id].estado == EstadoOrden::Cancelada
            &&& v2.productos[p].cantidad == v.productos[p].cantidad + o.cantidad
            &&& v2.solicitar_cancelacion(o.comprador, id) == (v2, fallo(ContractError::EstadoInvalido))
            &&& v2.aceptar_cancelacion(o.vendedor, id) == (v2, fallo(ContractError::EstadoInvalido))
        }),
        ({
            let o = v.ordenes[id];
            let p = o.producto_id;
            let (u1, s1) = v.aceptar_cancelacion(o.vendedor, id);
            let (u2, s2) = u1.solicitar_cancelacion(o.comprador, id);
            &&& s1 == exito()
            &&& u1.ordenes[id].estado == o.estado
            &&& u1.productos == v.productos
            &&& u1.aceptar_cancelacion(o.vendedor, id) == (u1, exito())
            &&& s2 == exito()
            &&& u2.ordenes[id].estado == EstadoOrden::Cancelada
            &&& u2.productos[p].cantidad == v.productos[p].cantidad + o.cantidad
            &&& u2.solicitar_cancelacion(o.comprador, id) == (u2, fallo(ContractError::EstadoInvalido))
            &&& u2.aceptar_cancelacion(o.vendedor, id) == (u2, fallo(ContractError::EstadoInvalido))
        }),
{
    let o = v.ordenes[id];
    let p = o.producto_id;
    assert(v.productos.contains_key(p));
    lemma_comprometido_cota(v.ordenes, p, v.siguiente_orden_id as int, id as int);
    assert(aporte(v.ordenes, id as int, p) == o.cantidad);
    let (v1, r1) = v.solicitar_cancelacion(o.comprador, id);
    let o1 = Orden { comprador_acepta_cancelar: true, ..o };
    assert(v1.ordenes.insert(id, o1) =~= v1.ordenes);
    assert(v1 == MarketplaceVista { ordenes: v1.ordenes.insert(id, o1), ..v1 });
    let (u1, s1) = v.aceptar_cancelacion(o.vendedor, id);
    let q1 = Orden { vendedor_acepta_cancelar: true, ..o };
    assert(u1.ordenes.insert(id, q1) =~= u1.ordenes);
    assert(u1 == MarketplaceVista { ordenes: u1.ordenes.insert(id, q1), ..u1 });
}

/// Scores: each party scores an order at most once, a score outside 1 to 5
/// fails with `CalificacionInvalida`, and the buyer cannot score an order
/// that has not been received.
pub proof fn ley_calificaciones(v: MarketplaceVista, caller: AccountId, id: u128, x: u8, y: u8)
    requires
        v.invariante(),
    ensures
        v.calificar_vendedor(caller, id, x).1 is Ok && 1 <= y <= 5 ==> {
            let w = v.calificar_vendedor(caller, id, x).0;
            w.calificar_vendedor(caller, id, y) == (w, fallo(ContractError::YaCalificado))
        },
        v.calificar_comprador(caller, id, x).1 is Ok && 1 <= y <= 5 ==> {
            let w = v.calificar_comprador(caller, id, x).0;
            w.calificar_comprador(caller, id, y) == (w, fallo(ContractError::YaCalificado))
        },
        !(1 <= x <= 5) ==> v.calificar_vendedor(caller, id, x) == (
            v,
            fallo(ContractError::CalificacionInvalida),
        ),
        !(1 <= x <= 5) ==> v.calificar_comprador(caller, id, x) == (
            v,
            fallo(ContractError::CalificacionInvalida),
        ),
        1 <= x <= 5 && v.ordenes.contains_key(id) && v.ordenes[id].comprador == caller
            && v.ordenes[id].estado != EstadoOrden::Recibido ==> v.calificar_vendedor(
            caller,
            id,
            x,
        ) == (v, fallo(ContractError::OrdenNoRecibida)),
{
}

} // verus!
