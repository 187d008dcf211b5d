//! The abstract state of the marketplace and each operation as a function
//! from state, caller and arguments to the next state and the result.
use vstd::prelude::*;

use crate::catalogo::Producto;
use crate::cuenta::AccountId;
use crate::errores::ContractError;
use crate::orden::{EstadoOrden, Orden};
use crate::reputacion::{CalificacionesOrden, ReputacionData};
use crate::roles::Roles;

verus! {

/// What the marketplace holds, as maps and sequences of plain values.
pub struct MarketplaceVista {
    /// Role of each registered account.
    pub roles: Map<AccountId, Roles>,
    /// Registered accounts, in the order in which they registered.
    pub usuarios: Seq<AccountId>,
    /// Products by identifier.
    pub productos: Map<u128, Producto>,
    /// Stock of each product when it was published.
    pub stock_inicial: Map<u128, u32>,
    /// Identifiers of each seller's products, in the order of publication.
    pub productos_por_usuario: Map<AccountId, Seq<u128>>,
    /// Identifier that the next product gets.
    pub siguiente_producto_id: u128,
    /// Orders by identifier.
    pub ordenes: Map<u128, Orden>,
    /// Identifiers of each buyer's orders, in the order of creation.
    pub ordenes_por_usuario: Map<AccountId, Seq<u128>>,
    /// Identifier that the next order gets.
    pub siguiente_orden_id: u128,
    /// Ratings record of each received order.
    pub calificaciones: Map<u128, CalificacionesOrden>,
    /// Reputation of each account that has received a score.
    pub reputaciones: Map<AccountId, ReputacionData>,
    /// Completed sales of each product that has had one.
    pub ventas: Map<u128, u32>,
    /// Per category: completed sales, sum of scores, number of scores.
    pub estadisticas: Map<Seq<char>, (u32, u128, u32)>,
}

/// The list kept under `a` in a per-account index; empty if there is none.
pub open spec fn lista_de(m: Map<AccountId, Seq<u128>>, a: AccountId) -> Seq<u128> {
    if m.contains_key(a) {
        m[a]
    } else {
        Seq::empty()
    }
}

/// `a + b`, or `a` where the sum passes `u32::MAX`.
pub open spec fn suma_o_igual_u32(a: u32, b: u32) -> u32 {
    if a + b <= u32::MAX {
        (a + b) as u32
    } else {
        a
    }
}

/// `a + b`, or `a` where the sum passes `u128::MAX`.
pub open spec fn suma_o_igual_u128(a: u128, b: u128) -> u128 {
    if a + b <= u128::MAX {
        (a + b) as u128
    } else {
        a
    }
}

/// `a + b`, or `a` where the sum passes the ceiling.
pub(crate) fn sumar_o_mantener_u32(a: u32, b: u32) -> (r: u32)
    ensures
        r == suma_o_igual_u32(a, b),
{
    match a.checked_add(b) {
        Some(s) => s,
        None => a,
    }
}

/// `a + b`, or `a` where the sum passes the ceiling.
pub(crate) fn sumar_o_mantener_u128(a: u128, b: u128) -> (r: u128)
    ensures
        r == suma_o_igual_u128(a, b),
{
    match a.checked_add(b) {
        Some(s) => s,
        None => a,
    }
}

/// Category statistics after one more rated sale with score `c`; each
/// component that would pass its ceiling keeps its value.
pub open spec fn acumular(s: (u32, u128, u32), c: u8) -> (u32, u128, u32) {
    (suma_o_igual_u32(s.0, 1), suma_o_igual_u128(s.1, c as u128), suma_o_igual_u32(s.2, 1))
}

/// Units of product `p` that order `id` holds: its quantity while it is not
/// cancelled, else nothing.
pub open spec fn aporte(ordenes: Map<u128, Orden>, id: int, p: u128) -> int {
    if 0 <= id <= u128::MAX && ordenes.contains_key(id as u128) && ordenes[id as u128].producto_id
        == p && ordenes[id as u128].estado != EstadoOrden::Cancelada {
        ordenes[id as u128].cantidad as int
    } else {
        0
    }
}

/// Units of product `p` held by the orders with identifiers below `n`.
pub open spec fn comprometido(ordenes: Map<u128, Orden>, p: u128, n: int) -> int
    decreases n,
{
    if n <= 0 {
        0
    } else {
        comprometido(ordenes, p, n - 1) + aporte(ordenes, n - 1, p)
    }
}

/// The products among `ids` that exist, in the order of `ids`, each with
/// its identifier.
pub open spec fn proyeccion(m: Map<u128, Producto>, ids: Seq<u128>) -> Seq<(u128, Producto)>
    decreases ids.len(),
{
    if ids.len() == 0 {
        Seq::empty()
    } else {
        let previos = proyeccion(m, ids.drop_last());
        let id = ids.last();
        if m.contains_key(id) {
            previos.push((id, m[id]))
        } else {
            previos
        }
    }
}

/// The products whose identifiers go from 1 up to, not including, `n`, in
/// increasing order, each with its identifier.
pub open spec fn listado(m: Map<u128, Producto>, n: int) -> Seq<(u128, Producto)>
    decreases n,
{
    if n <= 1 {
        Seq::empty()
    } else {
        let previos = listado(m, n - 1);
        let id = (n - 1) as u128;
        if m.contains_key(id) {
            previos.push((id, m[id]))
        } else {
            previos
        }
    }
}

/// The accounts of `usuarios` that have a reputation, in the same order,
/// each with it.
pub open spec fn con_reputacion(usuarios: Seq<AccountId>, reps: Map<AccountId, ReputacionData>) -> Seq<
    (AccountId, ReputacionData),
>
    decreases usuarios.len(),
{
    if usuarios.len() == 0 {
        Seq::empty()
    } else {
        let previos = con_reputacion(usuarios.drop_last(), reps);
        let a = usuarios.last();
        if reps.contains_key(a) {
            previos.push((a, reps[a]))
        } else {
            previos
        }
    }
}

/// Result of an operation that returns nothing on success.
pub open spec fn exito() -> Result<(), ContractError> {
    Ok(())
}

/// Failure of an operation that returns nothing on success.
pub open spec fn fallo(e: ContractError) -> Result<(), ContractError> {
    Err(e)
}

impl MarketplaceVista {
    /// The state of a new marketplace whose identifiers start at the given
    /// values.
    pub open spec fn inicial(siguiente_producto_id: u128, siguiente_orden_id: u128) -> MarketplaceVista {
        MarketplaceVista {
            roles: Map::empty(),
            usuarios: Seq::empty(),
            productos: Map::empty(),
            stock_inicial: Map::empty(),
            productos_por_usuario: Map::empty(),
            siguiente_producto_id,
            ordenes: Map::empty(),
            ordenes_por_usuario: Map::empty(),
            siguiente_orden_id,
            calificaciones: Map::empty(),
            reputaciones: Map::empty(),
            ventas: Map::empty(),
            estadisticas: Map::empty(),
        }
    }

    /// What holds in every state the operations can reach: identifiers are
    /// below their counters, every order names a stored product, exactly the
    /// received orders have a ratings record, and each product's stock plus
    /// the units its open orders hold is the stock it was published with.
    pub open spec fn invariante(self) -> bool {
        &&& self.siguiente_producto_id >= 1
        &&& self.siguiente_orden_id >= 1
        &&& forall|p: u128| #[trigger]
            self.productos.contains_key(p) ==> 1 <= p < self.siguiente_producto_id
        &&& forall|id: u128| #[trigger]
            self.ordenes.contains_key(id) ==> 1 <= id < self.siguiente_orden_id
                && self.productos.contains_key(self.ordenes[id].producto_id)
        &&& forall|id: u128| #[trigger]
            self.calificaciones.contains_key(id) <==> self.ordenes.contains_key(id)
                && self.ordenes[id].estado == EstadoOrden::Recibido
        &&& forall|p: u128| #[trigger]
            self.productos.contains_key(p) ==> self.stock_inicial.contains_key(p)
                && self.productos[p].cantidad + comprometido(
                self.ordenes,
                p,
                self.siguiente_orden_id as int,
            ) == self.stock_inicial[p]
    }

    /// The role of `a`, if it is registered.
    pub open spec fn rol(self, a: AccountId) -> Option<Roles> {
        if self.roles.contains_key(a) {
            Some(self.roles[a])
        } else {
            None
        }
    }

    /// The reputation of `a`, or the empty one if it has received no score.
    pub open spec fn reputacion_o_cero(self, a: AccountId) -> ReputacionData {
        if self.reputaciones.contains_key(a) {
            self.reputaciones[a]
        } else {
            ReputacionData::cero()
        }
    }

    /// Sales recorded for product `p`; zero if there is none.
    pub open spec fn ventas_de(self, p: u128) -> u32 {
        if self.ventas.contains_key(p) {
            self.ventas[p]
        } else {
            0
        }
    }

    /// Statistics of category `c`; zeros if there are none.
    pub open spec fn estadisticas_de(self, c: Seq<char>) -> (u32, u128, u32) {
        if self.estadisticas.contains_key(c) {
            self.estadisticas[c]
        } else {
            (0, 0, 0)
        }
    }

    /// `caller` registers with `rol`.
    pub open spec fn registrar(self, caller: AccountId, rol: Roles) -> (
        MarketplaceVista,
        Result<(), ContractError>,
    ) {
        if self.roles.contains_key(caller) {
            (self, fallo(ContractError::YaRegistrado))
        } else if self.usuarios.len() >= u32::MAX {
            (self, fallo(ContractError::Overflow))
        } else {
            (
                MarketplaceVista {
                    roles: self.roles.insert(caller, rol),
                    usuarios: self.usuarios.push(caller),
                    ..self
                },
                exito(),
            )
        }
    }

    /// `caller` adds the capabilities of `nuevo_rol` to its role.
    pub open spec fn modificar_rol(self, caller: AccountId, nuevo_rol: Roles) -> (
        MarketplaceVista,
        Result<(), ContractError>,
    ) {
        if !self.roles.contains_key(caller) {
            (self, fallo(ContractError::UsuarioNoRegistrado))
        } else {
            (
                MarketplaceVista {
                    roles: self.roles.insert(caller, self.roles[caller].combinar(nuevo_rol)),
                    ..self
                },
                exito(),
            )
        }
    }

    /// `caller` publishes `producto`, whose seller is `caller`.
    pub open spec fn publicar(self, caller: AccountId, producto: Producto) -> (
        MarketplaceVista,
        Result<u128, ContractError>,
    ) {
        let pid = self.siguiente_producto_id;
        if !(self.roles.contains_key(caller) && self.roles[caller].vende()) {
            (self, Err(ContractError::NoVendedor))
        } else if !producto.datos_validos() {
            (self, Err(ContractError::DatosInvalidos))
        } else if pid == u128::MAX {
            (self, Err(ContractError::Overflow))
        } else {
            (
                MarketplaceVista {
                    productos: self.productos.insert(pid, producto),
                    stock_inicial: self.stock_inicial.insert(pid, producto.cantidad),
                    productos_por_usuario: self.productos_por_usuario.insert(
                        caller,
                        lista_de(self.productos_por_usuario, caller).push(pid),
                    ),
                    siguiente_producto_id: (pid + 1) as u128,
                    ..self
                },
                Ok(pid),
            )
        }
    }

    /// `comprador` orders `cantidad` units of product `producto_id`.
    pub open spec fn crear_orden(self, comprador: AccountId, producto_id: u128, cantidad: u32) -> (
        MarketplaceVista,
        Result<u128, ContractError>,
    ) {
        let oid = self.siguiente_orden_id;
        let p = self.productos[producto_id];
        if !(self.roles.contains_key(comprador) && self.roles[comprador].compra()) {
            (self, Err(ContractError::NoAutorizado))
        } else if cantidad == 0 {
            (self, Err(ContractError::StockInsuficiente))
        } else if !self.productos.contains_key(producto_id) {
            (self, Err(ContractError::ProductoNoEncontrado))
        } else if p.cantidad < cantidad {
            (self, Err(ContractError::StockInsuficiente))
        } else if oid == u128::MAX {
            (self, Err(ContractError::Overflow))
        } else {
            (
                MarketplaceVista {
                    productos: self.productos.insert(
                        producto_id,
                        Producto { cantidad: (p.cantidad - cantidad) as u32, ..p },
                    ),
                    ordenes: self.ordenes.insert(
                        oid,
                        Orden {
                            comprador,
                            vendedor: p.vendedor,
                            producto_id,
                            cantidad,
                            estado: EstadoOrden::Pendiente,
                            comprador_acepta_cancelar: false,
                            vendedor_acepta_cancelar: false,
                        },
                    ),
                    ordenes_por_usuario: self.ordenes_por_usuario.insert(
                        comprador,
                        lista_de(self.ordenes_por_usuario, comprador).push(oid),
                    ),
                    siguiente_orden_id: (oid + 1) as u128,
                    ..self
                },
                Ok(oid),
            )
        }
    }

    /// The seller `caller` ships order `id`.
    pub open spec fn marcar_enviada(self, caller: AccountId, id: u128) -> (
        MarketplaceVista,
        Result<(), ContractError>,
    ) {
        let o = self.ordenes[id];
        if !self.ordenes.contains_key(id) {
            (self, fallo(ContractError::OrdenNoExiste))
        } else if o.vendedor != caller {
            (self, fallo(ContractError::NoAutorizado))
        } else if o.estado != EstadoOrden::Pendiente {
            (self, fallo(ContractError::EstadoInvalido))
        } else {
            (
                MarketplaceVista {
                    ordenes: self.ordenes.insert(id, Orden { estado: EstadoOrden::Enviado, ..o }),
                    ..self
                },
                exito(),
            )
        }
    }

    /// The buyer `caller` receives order `id`: one more sale of its product
    /// and an empty ratings record for the order.
    pub open spec fn marcar_recibida(self, caller: AccountId, id: u128) -> (
        MarketplaceVista,
        Result<(), ContractError>,
    ) {
        let o = self.ordenes[id];
        let vendidas = self.ventas_de(o.producto_id);
        if !self.ordenes.contains_key(id) {
            (self, fallo(ContractError::OrdenNoExiste))
        } else if o.comprador != caller {
            (self, fallo(ContractError::NoAutorizado))
        } else if o.estado != EstadoOrden::Enviado {
            (self, fallo(ContractError::EstadoInvalido))
        } else if vendidas == u32::MAX {
            (self, fallo(ContractError::Overflow))
        } else {
            (
                MarketplaceVista {
                    ordenes: self.ordenes.insert(id, Orden { estado: EstadoOrden::Recibido, ..o }),
                    ventas: self.ventas.insert(o.producto_id, (vendidas + 1) as u32),
                    calificaciones: self.calificaciones.insert(id, CalificacionesOrden::vacias()),
                    ..self
                },
                exito(),
            )
        }
    }

    /// Order `id` after one party's consent `o`: if both parties now consent,
    /// it is cancelled and its units go back to stock.
    pub open spec fn tras_consentimiento(self, id: u128, o: Orden) -> (
        MarketplaceVista,
        Result<(), ContractError>,
    ) {
        let p = self.productos[o.producto_id];
        if o.comprador_acepta_cancelar && o.vendedor_acepta_cancelar {
            if !self.productos.contains_key(o.producto_id) {
                (self, fallo(ContractError::ProductoNoEncontrado))
            } else if p.cantidad + o.cantidad > u32::MAX {
                (self, fallo(ContractError::Overflow))
            } else {
                (
                    MarketplaceVista {
                        ordenes: self.ordenes.insert(
                            id,
                            Orden { estado: EstadoOrden::Cancelada, ..o },
                        ),
                        productos: self.productos.insert(
                            o.producto_id,
                            Producto { cantidad: (p.cantidad + o.cantidad) as u32, ..p },
                        ),
                        ..self
                    },
                    exito(),
                )
            }
        } else {
            (MarketplaceVista { ordenes: self.ordenes.insert(id, o), ..self }, exito())
        }
    }

    /// The buyer `caller` asks to cancel order `id`.
    pub open spec fn solicitar_cancelacion(self, caller: AccountId, id: u128) -> (
        MarketplaceVista,
        Result<(), ContractError>,
    ) {
        let o = self.ordenes[id];
        if !self.ordenes.contains_key(id) {
            (self, fallo(ContractError::OrdenNoExiste))
        } else if o.comprador != caller {
            (self, fallo(ContractError::NoAutorizado))
        } else if !o.estado.cancelable() {
            (self, fallo(ContractError::EstadoInvalido))
        } else {
            self.tras_consentimiento(id, Orden { comprador_acepta_cancelar: true, ..o })
        }
    }

    /// The seller `caller` agrees to cancel order `id`.
    pub open spec fn aceptar_cancelacion(self, caller: AccountId, id: u128) -> (
        MarketplaceVista,
        Result<(), ContractError>,
    ) {
        let o = self.ordenes[id];
        if !self.ordenes.contains_key(id) {
            (self, fallo(ContractError::OrdenNoExiste))
        } else if o.vendedor != caller {
            (self, fallo(ContractError::NoAutorizado))
        } else if !o.estado.cancelable() {
            (self, fallo(ContractError::EstadoInvalido))
        } else {
            self.tras_consentimiento(id, Orden { vendedor_acepta_cancelar: true, ..o })
        }
    }

    /// The buyer `caller` scores the seller of order `id`: the score goes to
    /// the seller's reputation and to the statistics of the product's
    /// category.
    pub open spec fn calificar_vendedor(self, caller: AccountId, id: u128, calificacion: u8) -> (
        MarketplaceVista,
        Result<(), ContractError>,
    ) {
        let o = self.ordenes[id];
        let cal = self.calificaciones[id];
        let rep = self.reputacion_o_cero(o.vendedor);
        let cat = self.productos[o.producto_id].categoria@;
        if calificacion < 1 || calificacion > 5 {
            (self, fallo(ContractError::CalificacionInvalida))
        } else if !self.ordenes.contains_key(id) {
            (self, fallo(ContractError::OrdenNoExiste))
        } else if o.comprador != caller {
            (self, fallo(ContractError::NoAutorizado))
        } else if o.estado != EstadoOrden::Recibido {
            (self, fallo(ContractError::OrdenNoRecibida))
        } else if !self.calificaciones.contains_key(id) {
            (self, fallo(ContractError::EstadoInvalido))
        } else if cal.calificacion_comprador is Some {
            (self, fallo(ContractError::YaCalificado))
        } else if !rep.admite_como_vendedor(calificacion) {
            (self, fallo(ContractError::Overflow))
        } else {
            (
                MarketplaceVista {
                    calificaciones: self.calificaciones.insert(
                        id,
                        CalificacionesOrden { calificacion_comprador: Some(calificacion), ..cal },
                    ),
                    reputaciones: self.reputaciones.insert(
                        o.vendedor,
                        rep.con_calificacion_vendedor(calificacion),
                    ),
                    estadisticas: if self.productos.contains_key(o.producto_id) {
                        self.estadisticas.insert(
                            cat,
                            acumular(self.estadisticas_de(cat), calificacion),
                        )
                    } else {
                        self.estadisticas
                    },
                    ..self
                },
                exito(),
            )
        }
    }

    /// The seller `caller` scores the buyer of order `id`: the score goes to
    /// the buyer's reputation.
    pub open spec fn calificar_comprador(self, caller: AccountId, id: u128, calificacion: u8) -> (
        MarketplaceVista,
        Result<(), ContractError>,
    ) {
        let o = self.ordenes[id];
        let cal = self.calificaciones[id];
        let rep = self.reputacion_o_cero(o.comprador);
        if calificacion < 1 || calificacion > 5 {
            (self, fallo(ContractError::CalificacionInvalida))
        } else if !self.ordenes.contains_key(id) {
            (self, fallo(ContractError::OrdenNoExiste))
        } else if o.vendedor != caller {
            (self, fallo(ContractError::NoAutorizado))
        } else if o.estado != EstadoOrden::Recibido {
            (self, fallo(ContractError::OrdenNoRecibida))
        } else if !self.calificaciones.contains_key(id) {
            (self, fallo(ContractError::EstadoInvalido))
        } else if cal.calificacion_vendedor is Some {
            (self, fallo(ContractError::YaCalificado))
        } else if !rep.admite_como_comprador(calificacion) {
            (self, fallo(ContractError::Overflow))
        } else {
            (
                MarketplaceVista {
                    calificaciones: self.calificaciones.insert(
                        id,
                        CalificacionesOrden { calificacion_vendedor: Some(calificacion), ..cal },
                    ),
                    reputaciones: self.reputaciones.insert(
                        o.comprador,
                        rep.con_calificacion_comprador(calificacion),
                    ),
                    ..self
                },
                exito(),
            )
        }
    }
}

} // verus!
