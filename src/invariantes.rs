//! Every operation keeps `MarketplaceVista::invariante`; in particular each
//! product's stock plus what its open orders hold stays its initial stock.
use vstd::prelude::*;

use crate::catalogo::Producto;
use crate::cuenta::AccountId;
use crate::orden::{EstadoOrden, Orden};
use crate::roles::Roles;
use crate::vista::{aporte, comprometido, MarketplaceVista};

verus! {

/// Changing the orders at identifier `k` alone changes what they hold of
/// product `p` below `n` by the change at `k`.
pub proof fn lemma_comprometido_puntual(
    m1: Map<u128, Orden>,
    m2: Map<u128, Orden>,
    p: u128,
    n: int,
    k: int,
)
    requires
        forall|id: int| id != k ==> aporte(m1, id, p) == aporte(m2, id, p),
    ensures
        comprometido(m2, p, n) == comprometido(m1, p, n) + (if 0 <= k < n {
            aporte(m2, k, p) - aporte(m1, k, p)
        } else {
            0
        }),
    decreases n,
{
    if n > 0 {
        lemma_comprometido_puntual(m1, m2, p, n - 1, k);
    }
}

/// Where no order names product `p`, the orders hold none of it.
pub proof fn lemma_comprometido_nulo(m: Map<u128, Orden>, p: u128, n: int)
    requires
        forall|id: u128| #[trigger] m.contains_key(id) ==> m[id].producto_id != p,
    ensures
        comprometido(m, p, n) == 0,
    decreases n,
{
    if n > 0 {
        lemma_comprometido_nulo(m, p, n - 1);
    }
}

/// Replacing order `id` by `o` with the same product and quantity, both
/// open or both cancelled, keeps what the orders hold of every product.
pub proof fn lemma_misma_reserva(v: MarketplaceVista, id: u128, o: Orden, p: u128)
    requires
        v.ordenes.contains_key(id),
        o.producto_id == v.ordenes[id].producto_id,
        o.cantidad == v.ordenes[id].cantidad,
        (o.estado == EstadoOrden::Cancelada) == (v.ordenes[id].estado == EstadoOrden::Cancelada),
    ensures
        comprometido(v.ordenes.insert(id, o), p, v.siguiente_orden_id as int) == comprometido(
            v.ordenes,
            p,
            v.siguiente_orden_id as int,
        ),
{
    let m2 = v.ordenes.insert(id, o);
    assert forall|j: int| j != id as int implies aporte(v.ordenes, j, p) == aporte(m2, j, p) by {
        if 0 <= j <= u128::MAX {
            assert(j as u128 != id);
        }
    }
    lemma_comprometido_puntual(v.ordenes, m2, p, v.siguiente_orden_id as int, id as int);
}

pub proof fn lemma_registrar_invariante(v: MarketplaceVista, c: AccountId, rol: Roles)
    requires
        v.invariante(),
    ensures
        v.registrar(c, rol).0.invariante(),
{
}

pub proof fn lemma_modificar_rol_invariante(v: MarketplaceVista, c: AccountId, rol: Roles)
    requires
        v.invariante(),
    ensures
        v.modificar_rol(c, rol).0.invariante(),
{
}

pub proof fn lemma_publicar_invariante(v: MarketplaceVista, c: AccountId, producto: Producto)
    requires
        v.invariante(),
    ensures
        v.publicar(c, producto).0.invariante(),
{
    let w = v.publicar(c, producto).0;
    if v.publicar(c, producto).1 is Ok {
        let pid = v.siguiente_producto_id;
        assert forall|id: u128| #[trigger] v.ordenes.contains_key(id) implies v.ordenes[id].producto_id
            != pid by {
            assert(v.productos.contains_key(v.ordenes[id].producto_id));
        }
        lemma_comprometido_nulo(v.ordenes, pid, v.siguiente_orden_id as int);
        assert forall|p: u128| #[trigger] w.productos.contains_key(p) implies w.stock_inicial.contains_key(p)
            && w.productos[p].cantidad + comprometido(w.ordenes, p, w.siguiente_orden_id as int)
            == w.stock_inicial[p] by {
            if p != pid {
                assert(v.productos.contains_key(p));
            }
        }
        assert forall|id: u128| #[trigger] w.ordenes.contains_key(id) implies 1 <= id
            < w.siguiente_orden_id && w.productos.contains_key(w.ordenes[id].producto_id) by {
            assert(v.ordenes.contains_key(id));
        }
    }
}

pub proof fn lemma_crear_orden_invariante(v: MarketplaceVista, c: AccountId, pid: u128, q: u32)
    requires
        v.invariante(),
    ensures
        v.crear_orden(c, pid, q).0.invariante(),
{
    let w = v.crear_orden(c, pid, q).0;
    if v.crear_orden(c, pid, q).1 is Ok {
        let oid = v.siguiente_orden_id;
        let n = oid as int;
        assert forall|p: u128| #[trigger] w.productos.contains_key(p) implies w.stock_inicial.contains_key(p)
            && w.productos[p].cantidad + comprometido(w.ordenes, p, w.siguiente_orden_id as int)
            == w.stock_inicial[p] by {
            assert(v.productos.contains_key(p));
            assert forall|j: int| j != n implies aporte(v.ordenes, j, p) == aporte(w.ordenes, j, p) by {
                if 0 <= j <= u128::MAX {
                    assert(j as u128 != oid);
                }
            }
            lemma_comprometido_puntual(v.ordenes, w.ordenes, p, n, n);
            assert(!v.ordenes.contains_key(oid));
            assert(comprometido(w.ordenes, p, n + 1) == comprometido(w.ordenes, p, n) + aporte(
                w.ordenes,
                n,
                p,
            ));
        }
        assert forall|id: u128| #[trigger] w.calificaciones.contains_key(id) <==> w.ordenes.contains_key(
            id,
        ) && w.ordenes[id].estado == EstadoOrden::Recibido by {
            if id == oid {
                assert(!v.ordenes.contains_key(oid));
            }
        }
        assert forall|id: u128| #[trigger] w.ordenes.contains_key(id) implies 1 <= id
            < w.siguiente_orden_id && w.productos.contains_key(w.ordenes[id].producto_id) by {
            if id != oid {
                assert(v.ordenes.contains_key(id));
            }
        }
    }
}

pub proof fn lemma_marcar_enviada_invariante(v: MarketplaceVista, c: AccountId, id: u128)
    requires
        v.invariante(),
    ensures
        v.marcar_enviada(c, id).0.invariante(),
{
    let w = v.marcar_enviada(c, id).0;
    if v.marcar_enviada(c, id).1 is Ok {
        let o = Orden { estado: EstadoOrden::Enviado, ..v.ordenes[id] };
        assert forall|p: u128| #[trigger] w.productos.contains_key(p) implies w.stock_inicial.contains_key(p)
            && w.productos[p].cantidad + comprometido(w.ordenes, p, w.siguiente_orden_id as int)
            == w.stock_inicial[p] by {
            lemma_misma_reserva(v, id, o, p);
        }
        assert forall|j: u128| #[trigger] w.ordenes.contains_key(j) implies 1 <= j
            < w.siguiente_orden_id && w.productos.contains_key(w.ordenes[j].producto_id) by {
            assert(v.ordenes.contains_key(j));
        }
    }
}

pub proof fn lemma_marcar_recibida_invariante(v: MarketplaceVista, c: AccountId, id: u128)
    requires
        v.invariante(),
    ensures
        v.marcar_recibida(c, id).0.invariante(),
{
    let w = v.marcar_recibida(c, id).0;
    if v.marcar_recibida(c, id).1 is Ok {
        let o = Orden { estado: EstadoOrden::Recibido, ..v.ordenes[id] };
        assert forall|p: u128| #[trigger] w.productos.contains_key(p) implies w.stock_inicial.contains_key(p)
            && w.productos[p].cantidad + comprometido(w.ordenes, p, w.siguiente_orden_id as int)
            == w.stock_inicial[p] by {
            lemma_misma_reserva(v, id, o, p);
        }
        assert forall|j: u128| #[trigger] w.ordenes.contains_key(j) implies 1 <= j
            < w.siguiente_orden_id && w.productos.contains_key(w.ordenes[j].producto_id) by {
            assert(v.ordenes.contains_key(j));
        }
    }
}

/// Keeping the invariant after one party's consent, given that the order
/// was open.
pub proof fn lemma_consentimiento_invariante(v: MarketplaceVista, id: u128, o: Orden)
    requires
        v.invariante(),
        v.ordenes.contains_key(id),
        v.ordenes[id].estado.cancelable(),
        o == (Orden {
            comprador_acepta_cancelar: o.comprador_acepta_cancelar,
            vendedor_acepta_cancelar: o.vendedor_acepta_cancelar,
            ..v.ordenes[id]
        }),
    ensures
        v.tras_consentimiento(id, o).0.invariante(),
{
    let w = v.tras_consentimiento(id, o).0;
    if v.tras_consentimiento(id, o).1 is Ok {
        let cancela = o.comprador_acepta_cancelar && o.vendedor_acepta_cancelar;
        let o2 = if cancela {
            Orden { estado: EstadoOrden::Cancelada, ..o }
        } else {
            o
        };
        assert(w.ordenes == v.ordenes.insert(id, o2));
        assert forall|p: u128| #[trigger] w.productos.contains_key(p) implies w.stock_inicial.contains_key(p)
            && w.productos[p].cantidad + comprometido(w.ordenes, p, w.siguiente_orden_id as int)
            == w.stock_inicial[p] by {
            if cancela {
                assert forall|j: int| j != id as int implies aporte(v.ordenes, j, p) == aporte(
                    w.ordenes,
                    j,
                    p,
                ) by {
                    if 0 <= j <= u128::MAX {
                        assert(j as u128 != id);
                    }
                }
                lemma_comprometido_puntual(
                    v.ordenes,
                    w.ordenes,
                    p,
                    v.siguiente_orden_id as int,
                    id as int,
                );
            } else {
                lemma_misma_reserva(v, id, o2, p);
            }
        }
        assert forall|j: u128| #[trigger] w.ordenes.contains_key(j) implies 1 <= j
            < w.siguiente_orden_id && w.productos.contains_key(w.ordenes[j].producto_id) by {
            assert(v.ordenes.contains_key(j));
        }
    }
}

pub proof fn lemma_solicitar_cancelacion_invariante(v: MarketplaceVista, c: AccountId, id: u128)
    requires
        v.invariante(),
    ensures
        v.solicitar_cancelacion(c, id).0.invariante(),
{
    if v.ordenes.contains_key(id) && v.ordenes[id].comprador == c
        && v.ordenes[id].estado.cancelable() {
        lemma_consentimiento_invariante(
            v,
            id,
            Orden { comprador_acepta_cancelar: true, ..v.ordenes[id] },
        );
    }
}

pub proof fn lemma_aceptar_cancelacion_invariante(v: MarketplaceVista, c: AccountId, id: u128)
    requires
        v.invariante(),
    ensures
        v.aceptar_cancelacion(c, id).0.invariante(),
{
    if v.ordenes.contains_key(id) && v.ordenes[id].vendedor == c
        && v.ordenes[id].estado.cancelable() {
        lemma_consentimiento_invariante(
            v,
            id,
            Orden { vendedor_acepta_cancelar: true, ..v.ordenes[id] },
        );
    }
}

pub proof fn lemma_calificar_vendedor_invariante(v: MarketplaceVista, c: AccountId, id: u128, x: u8)
    requires
        v.invariante(),
    ensures
        v.calificar_vendedor(c, id, x).0.invariante(),
{
}

pub proof fn lemma_calificar_comprador_invariante(v: MarketplaceVista, c: AccountId, id: u128, x: u8)
    requires
        v.invariante(),
    ensures
        v.calificar_comprador(c, id, x).0.invariante(),
{
}

} // verus!
