//! The marketplace: role registry, catalog, order ledger and reputation,
//! each operation proved to behave as its `MarketplaceVista` counterpart.
use std::collections::HashMap;

use vstd::prelude::*;

use crate::asociacion::{
    buscar_cuenta,
    buscar_texto,
    claves_unicas,
    lemma_mapa_actualizar,
    lemma_mapa_agregar,
    lemma_mapa_dominio,
    lemma_mapa_valor,
    mapa,
};
use crate::catalogo::Producto;
use crate::cuenta::AccountId;
use crate::errores::ContractError;
use crate::invariantes::{
    lemma_aceptar_cancelacion_invariante,
    lemma_calificar_comprador_invariante,
    lemma_calificar_vendedor_invariante,
    lemma_consentimiento_invariante,
    lemma_crear_orden_invariante,
    lemma_marcar_enviada_invariante,
    lemma_marcar_recibida_invariante,
    lemma_modificar_rol_invariante,
    lemma_publicar_invariante,
    lemma_registrar_invariante,
    lemma_solicitar_cancelacion_invariante,
};
use crate::orden::{EstadoOrden, Orden};
use crate::reputacion::{media, CalificacionesOrden, ReputacionData};
use crate::roles::Roles;
use crate::vista::{
    acumular,
    con_reputacion,
    lista_de,
    listado,
    proyeccion,
    sumar_o_mantener_u128,
    sumar_o_mantener_u32,
    MarketplaceVista,
};

verus! {

broadcast use vstd::std_specs::hash::group_hash_axioms;

/// Per-account lists of identifiers, read as sequences.
pub open spec fn indice_vista(s: Seq<(AccountId, Vec<u128>)>) -> Seq<(AccountId, Seq<u128>)> {
    s.map_values(|e: (AccountId, Vec<u128>)| (e.0, e.1@))
}

/// Category statistics keyed by the text of the category.
pub open spec fn estadisticas_vista(s: Seq<(String, (u32, u128, u32))>) -> Seq<
    (Seq<char>, (u32, u128, u32)),
> {
    s.map_values(|e: (String, (u32, u128, u32))| (e.0@, e.1))
}

/// The marketplace's storage. What it holds is given by its view, a
/// `MarketplaceVista`.
pub struct Marketplace {
    usuarios: Vec<(AccountId, Roles)>,
    productos: HashMap<u128, Producto>,
    stock_inicial: Ghost<Map<u128, u32>>,
    productos_por_usuario: Vec<(AccountId, Vec<u128>)>,
    siguiente_producto_id: u128,
    ordenes: HashMap<u128, Orden>,
    ordenes_por_usuario: Vec<(AccountId, Vec<u128>)>,
    siguiente_orden_id: u128,
    calificaciones: HashMap<u128, CalificacionesOrden>,
    reputaciones: Vec<(AccountId, ReputacionData)>,
    ventas: HashMap<u128, u32>,
    estadisticas: Vec<(String, (u32, u128, u32))>,
}

impl View for Marketplace {
    type V = MarketplaceVista;

    closed spec fn view(&self) -> MarketplaceVista {
        MarketplaceVista {
            roles: mapa(self.usuarios@),
            usuarios: self.usuarios@.map_values(|e: (AccountId, Roles)| e.0),
            productos: self.productos@,
            stock_inicial: self.stock_inicial@,
            productos_por_usuario: mapa(indice_vista(self.productos_por_usuario@)),
            siguiente_producto_id: self.siguiente_producto_id,
            ordenes: self.ordenes@,
            ordenes_por_usuario: mapa(indice_vista(self.ordenes_por_usuario@)),
            siguiente_orden_id: self.siguiente_orden_id,
            calificaciones: self.calificaciones@,
            reputaciones: mapa(self.reputaciones@),
            ventas: self.ventas@,
            estadisticas: mapa(estadisticas_vista(self.estadisticas@)),
        }
    }
}

/// Appends `id` to the list that `indice` keeps for `cuenta`, starting one
/// if there is none.
fn agregar_a_indice(indice: &mut Vec<(AccountId, Vec<u128>)>, cuenta: AccountId, id: u128)
    requires
        claves_unicas(indice_vista(old(indice)@)),
    ensures
        claves_unicas(indice_vista(final(indice)@)),
        mapa(indice_vista(final(indice)@)) == mapa(indice_vista(old(indice)@)).insert(
            cuenta,
            lista_de(mapa(indice_vista(old(indice)@)), cuenta).push(id),
        ),
{
    let ghost viejo = indice_vista(indice@);
    proof {
        lemma_mapa_dominio(viejo, cuenta);
    }
    match buscar_cuenta(indice, &cuenta) {
        Some(i) => {
            proof {
                lemma_mapa_valor(viejo, i as int);
            }
            indice[i].1.push(id);
            proof {
                assert(indice_vista(indice@) =~= viejo.update(
                    i as int,
                    (viejo[i as int].0, viejo[i as int].1.push(id)),
                ));
                lemma_mapa_actualizar(viejo, i as int, viejo[i as int].1.push(id));
            }
        },
        None => {
            let mut lista: Vec<u128> = Vec::new();
            lista.push(id);
            indice.push((cuenta, lista));
            proof {
                assert(!mapa(viejo).contains_key(cuenta));
                assert(indice_vista(indice@) =~= viejo.push((cuenta, seq![id])));
                assert(Seq::<u128>::empty().push(id) =~= seq![id]);
                lemma_mapa_agregar(viejo, cuenta, seq![id]);
            }
        },
    }
}

/// Fails with `CalificacionInvalida` unless the score is from 1 to 5.
fn validar_calificacion(calificacion: u8) -> (r: Result<(), ContractError>)
    ensures
        1 <= calificacion <= 5 ==> r == Ok::<(), ContractError>(()),
        !(1 <= calificacion <= 5) ==> r == Err::<(), ContractError>(
            ContractError::CalificacionInvalida,
        ),
{
    if calificacion < 1 || calificacion > 5 {
        return Err(ContractError::CalificacionInvalida);
    }
    Ok(())
}

/// Adds one rated sale with score `calificacion` to the statistics of
/// `categoria`, starting them at zero if there are none.
fn acumular_estadisticas(
    estadisticas: &mut Vec<(String, (u32, u128, u32))>,
    categoria: String,
    calificacion: u8,
)
    requires
        claves_unicas(estadisticas_vista(old(estadisticas)@)),
    ensures
        claves_unicas(estadisticas_vista(final(estadisticas)@)),
        ({
            let m = mapa(estadisticas_vista(old(estadisticas)@));
            let previas = if m.contains_key(categoria@) {
                m[categoria@]
            } else {
                (0u32, 0u128, 0u32)
            };
            mapa(estadisticas_vista(final(estadisticas)@)) == m.insert(
                categoria@,
                acumular(previas, calificacion),
            )
        }),
{
    let ghost viejo = estadisticas_vista(estadisticas@);
    proof {
        lemma_mapa_dominio(viejo, categoria@);
    }
    match buscar_texto(estadisticas, &categoria) {
        Some(i) => {
            proof {
                lemma_mapa_valor(viejo, i as int);
            }
            let s = estadisticas[i].1;
            let nuevas = (
                sumar_o_mantener_u32(s.0, 1),
                sumar_o_mantener_u128(s.1, calificacion as u128),
                sumar_o_mantener_u32(s.2, 1),
            );
            estadisticas.set(i, (categoria, nuevas));
            proof {
                assert(estadisticas_vista(estadisticas@) =~= viejo.update(
                    i as int,
                    (viejo[i as int].0, nuevas),
                ));
                lemma_mapa_actualizar(viejo, i as int, nuevas);
            }
        },
        None => {
            let nuevas = (1u32, calificacion as u128, 1u32);
            let ghost clave = categoria@;
            estadisticas.push((categoria, nuevas));
            proof {
                assert(estadisticas_vista(estadisticas@) =~= viejo.push((clave, nuevas)));
                lemma_mapa_agregar(viejo, clave, nuevas);
            }
        },
    }
}

/// Counts score `calificacion` in the reputation of `cuenta`, as seller if
/// `como_vendedor` and as buyer otherwise; fails with `Overflow`, changing
/// nothing, where a counter would pass its ceiling.
fn calificar_cuenta(
    reputaciones: &mut Vec<(AccountId, ReputacionData)>,
    cuenta: AccountId,
    calificacion: u8,
    como_vendedor: bool,
) -> (r: Result<(), ContractError>)
    requires
        claves_unicas(old(reputaciones)@),
    ensures
        claves_unicas(final(reputaciones)@),
        ({
            let m = mapa(old(reputaciones)@);
            let rep = if m.contains_key(cuenta) {
                m[cuenta]
            } else {
                ReputacionData::cero()
            };
            let admite = if como_vendedor {
                rep.admite_como_vendedor(calificacion)
            } else {
                rep.admite_como_comprador(calificacion)
            };
            let nueva = if como_vendedor {
                rep.con_calificacion_vendedor(calificacion)
            } else {
                rep.con_calificacion_comprador(calificacion)
            };
            if admite {
                r == Ok::<(), ContractError>(()) && mapa(final(reputaciones)@) == m.insert(
                    cuenta,
                    nueva,
                )
            } else {
                r == Err::<(), ContractError>(ContractError::Overflow) && final(reputaciones)@
                    == old(reputaciones)@
            }
        }),
{
    let ghost viejo = reputaciones@;
    proof {
        lemma_mapa_dominio(viejo, cuenta);
    }
    let posicion = buscar_cuenta(reputaciones, &cuenta);
    let mut rep = match posicion {
        Some(i) => {
            proof {
                lemma_mapa_valor(viejo, i as int);
            }
            reputaciones[i].1
        },
        None => ReputacionData::new(),
    };
    let resultado = if como_vendedor {
        rep.agregar_calificacion_vendedor(calificacion)
    } else {
        rep.agregar_calificacion_comprador(calificacion)
    };
    match resultado {
        Ok(()) => {},
        Err(e) => return Err(e),
    }
    match posicion {
        Some(i) => {
            reputaciones.set(i, (cuenta, rep));
            proof {
                lemma_mapa_actualizar(viejo, i as int, rep);
            }
        },
        None => {
            reputaciones.push((cuenta, rep));
            proof {
                lemma_mapa_agregar(viejo, cuenta, rep);
            }
        },
    }
    Ok(())
}

impl Marketplace {
    /// The storage holds each key once, the roster fits its `u32` counter,
    /// and the view keeps its invariant.
    pub closed spec fn bien_formado(&self) -> bool {
        &&& claves_unicas(self.usuarios@)
        &&& self.usuarios@.len() <= u32::MAX
        &&& claves_unicas(indice_vista(self.productos_por_usuario@))
        &&& claves_unicas(indice_vista(self.ordenes_por_usuario@))
        &&& claves_unicas(self.reputaciones@)
        &&& claves_unicas(estadisticas_vista(self.estadisticas@))
        &&& self@.invariante()
    }

    /// The state of a well-formed marketplace satisfies the invariant of
    /// `MarketplaceVista`.
    pub proof fn lemma_invariante(&self)
        requires
            self.bien_formado(),
        ensures
            self@.invariante(),
    {
    }

    /// An empty marketplace; product and order identifiers start at 1.
    pub fn new() -> (r: Marketplace)
        ensures
            r.bien_formado(),
            r@ == MarketplaceVista::inicial(1, 1),
    {
        Marketplace::con_siguientes_ids(1, 1)
    }

    /// An empty marketplace whose next product and order identifiers are the
    /// given ones.
    pub fn con_siguientes_ids(siguiente_producto_id: u128, siguiente_orden_id: u128) -> (r: Marketplace)
        requires
            siguiente_producto_id >= 1,
            siguiente_orden_id >= 1,
        ensures
            r.bien_formado(),
            r@ == MarketplaceVista::inicial(siguiente_producto_id, siguiente_orden_id),
    {
        let r = Marketplace {
            usuarios: Vec::new(),
            productos: HashMap::new(),
            stock_inicial: Ghost(Map::empty()),
            productos_por_usuario: Vec::new(),
            siguiente_producto_id,
            ordenes: HashMap::new(),
            ordenes_por_usuario: Vec::new(),
            siguiente_orden_id,
            calificaciones: HashMap::new(),
            reputaciones: Vec::new(),
            ventas: HashMap::new(),
            estadisticas: Vec::new(),
        };
        proof {
            assert(r.usuarios@.map_values(|e: (AccountId, Roles)| e.0) =~= Seq::empty());
            assert(mapa(indice_vista(r.productos_por_usuario@)) =~= Map::empty());
            assert(mapa(indice_vista(r.ordenes_por_usuario@)) =~= Map::empty());
            assert(mapa(estadisticas_vista(r.estadisticas@)) =~= Map::empty());
        }
        r
    }

    /// `caller` registers with `rol` and joins the roster.
    pub fn registrar_usuario(&mut self, caller: AccountId, rol: Roles) -> (r: Result<(), ContractError>)
        requires
            old(self).bien_formado(),
        ensures
            final(self).bien_formado(),
            (final(self)@, r) == old(self)@.registrar(caller, rol),
    {
        let ghost antes = self.usuarios@;
        proof {
            lemma_mapa_dominio(antes, caller);
            lemma_registrar_invariante(self@, caller, rol);
        }
        if buscar_cuenta(&self.usuarios, &caller).is_some() {
            return Err(ContractError::YaRegistrado);
        }
        if self.usuarios.len() >= u32::MAX as usize {
            return Err(ContractError::Overflow);
        }
        self.usuarios.push((caller, rol));
        proof {
            lemma_mapa_agregar(antes, caller, rol);
            assert(self.usuarios@.map_values(|e: (AccountId, Roles)| e.0) =~= antes.map_values(
                |e: (AccountId, Roles)| e.0,
            ).push(caller));
        }
        Ok(())
    }

    /// `caller` adds the capabilities of `nuevo_rol` to its role; none is
    /// ever taken away.
    pub fn modificar_rol(&mut self, caller: AccountId, nuevo_rol: Roles) -> (r: Result<(), ContractError>)
        requires
            old(self).bien_formado(),
        ensures
            final(self).bien_formado(),
            (final(self)@, r) == old(self)@.modificar_rol(caller, nuevo_rol),
    {
        let ghost antes = self.usuarios@;
        proof {
            lemma_mapa_dominio(antes, caller);
            lemma_modificar_rol_invariante(self@, caller, nuevo_rol);
        }
        match buscar_cuenta(&self.usuarios, &caller) {
            None => Err(ContractError::UsuarioNoRegistrado),
            Some(i) => {
                proof {
                    lemma_mapa_valor(antes, i as int);
                }
                let actual = self.usuarios[i].1;
                let combinado = match actual.agregar_rol(nuevo_rol) {
                    Ok(rol) => rol,
                    Err(e) => return Err(e),
                };
                self.usuarios.set(i, (caller, combinado));
                proof {
                    lemma_mapa_actualizar(antes, i as int, combinado);
                    assert(self.usuarios@.map_values(|e: (AccountId, Roles)| e.0) =~= antes.map_values(
                        |e: (AccountId, Roles)| e.0,
                    ));
                }
                Ok(())
            },
        }
    }

    /// The role of `usuario`, if it is registered.
    pub fn obtener_rol(&self, usuario: AccountId) -> (r: Option<Roles>)
        requires
            self.bien_formado(),
        ensures
            r == self@.rol(usuario),
    {
        proof {
            lemma_mapa_dominio(self.usuarios@, usuario);
        }
        match buscar_cuenta(&self.usuarios, &usuario) {
            Some(i) => {
                proof {
                    lemma_mapa_valor(self.usuarios@, i as int);
                }
                Some(self.usuarios[i].1)
            },
            None => None,
        }
    }

    /// Whether `cuenta` is registered with a role for which `vende` (seller
    /// capability) or else the buyer capability holds.
    fn tiene_capacidad(&self, cuenta: &AccountId, vende: bool) -> (r: bool)
        requires
            self.bien_formado(),
        ensures
            r == (self@.roles.contains_key(*cuenta) && (if vende {
                self@.roles[*cuenta].vende()
            } else {
                self@.roles[*cuenta].compra()
            })),
    {
        proof {
            lemma_mapa_dominio(self.usuarios@, *cuenta);
        }
        match buscar_cuenta(&self.usuarios, cuenta) {
            Some(i) => {
                proof {
                    lemma_mapa_valor(self.usuarios@, i as int);
                }
                if vende {
                    self.usuarios[i].1.es_vendedor()
                } else {
                    self.usuarios[i].1.es_comprador()
                }
            },
            None => false,
        }
    }

    /// `caller`, a seller, publishes a product and gets its identifier.
    pub fn publicar_producto(
        &mut self,
        caller: AccountId,
        nombre: String,
        descripcion: String,
        precio: u128,
        cantidad: u32,
        categoria: String,
    ) -> (r: Result<u128, ContractError>)
        requires
            old(self).bien_formado(),
        ensures
            final(self).bien_formado(),
            (final(self)@, r) == old(self)@.publicar(
                caller,
                Producto { nombre, descripcion, precio, cantidad, categoria, vendedor: caller },
            ),
    {
        if !self.tiene_capacidad(&caller, true) {
            return Err(ContractError::NoVendedor);
        }
        let producto = Producto { nombre, descripcion, precio, cantidad, categoria, vendedor: caller };
        let ghost p = producto;
        proof {
            lemma_publicar_invariante(self@, caller, p);
        }
        match producto.validar() {
            Ok(()) => {},
            Err(e) => return Err(e),
        }
        let pid = self.siguiente_producto_id;
        if pid == u128::MAX {
            return Err(ContractError::Overflow);
        }
        self.productos.insert(pid, producto);
        self.stock_inicial = Ghost(self.stock_inicial@.insert(pid, cantidad));
        agregar_a_indice(&mut self.productos_por_usuario, caller, pid);
        self.siguiente_producto_id = pid + 1;
        Ok(pid)
    }

    /// `caller`, a buyer, orders `cantidad` units of product `producto_id`,
    /// which leave its stock at once; returns the order's identifier.
    pub fn crear_orden_de_compra(&mut self, caller: AccountId, producto_id: u128, cantidad: u32) -> (r:
        Result<u128, ContractError>)
        requires
            old(self).bien_formado(),
        ensures
            final(self).bien_formado(),
            (final(self)@, r) == old(self)@.crear_orden(caller, producto_id, cantidad),
    {
        proof {
            lemma_crear_orden_invariante(self@, caller, producto_id, cantidad);
        }
        if !self.tiene_capacidad(&caller, false) {
            return Err(ContractError::NoAutorizado);
        }
        if cantidad == 0 {
            return Err(ContractError::StockInsuficiente);
        }
        let mut producto = match self.productos.get(&producto_id) {
            Some(p) => p.clone(),
            None => return Err(ContractError::ProductoNoEncontrado),
        };
        if producto.cantidad < cantidad {
            return Err(ContractError::StockInsuficiente);
        }
        let oid = self.siguiente_orden_id;
        if oid == u128::MAX {
            return Err(ContractError::Overflow);
        }
        producto.cantidad = match producto.cantidad.checked_sub(cantidad) {
            Some(n) => n,
            None => return Err(ContractError::Overflow),
        };
        let vendedor = producto.vendedor;
        self.productos.insert(producto_id, producto);
        let orden = Orden {
            comprador: caller,
            vendedor,
            producto_id,
            cantidad,
            estado: EstadoOrden::Pendiente,
            comprador_acepta_cancelar: false,
            vendedor_acepta_cancelar: false,
        };
        self.ordenes.insert(oid, orden);
        agregar_a_indice(&mut self.ordenes_por_usuario, caller, oid);
        self.siguiente_orden_id = oid + 1;
        Ok(oid)
    }

    /// The order `orden_id`, if it exists.
    pub fn obtener_orden(&self, orden_id: u128) -> (r: Option<Orden>)
        ensures
            r == (if self@.ordenes.contains_key(orden_id) {
                Some(self@.ordenes[orden_id])
            } else {
                None
            }),
    {
        match self.ordenes.get(&orden_id) {
            Some(o) => Some(*o),
            None => None,
        }
    }

    /// The seller `caller` ships order `orden_id`, which must be pending.
    pub fn marcar_orden_enviada(&mut self, caller: AccountId, orden_id: u128) -> (r: Result<
        (),
        ContractError,
    >)
        requires
            old(self).bien_formado(),
        ensures
            final(self).bien_formado(),
            (final(self)@, r) == old(self)@.marcar_enviada(caller, orden_id),
    {
        proof {
            lemma_marcar_enviada_invariante(self@, caller, orden_id);
        }
        let mut orden = match self.obtener_orden(orden_id) {
            Some(o) => o,
            None => return Err(ContractError::OrdenNoExiste),
        };
        if orden.vendedor != caller {
            return Err(ContractError::NoAutorizado);
        }
        if orden.estado != EstadoOrden::Pendiente {
            return Err(ContractError::EstadoInvalido);
        }
        orden.estado = EstadoOrden::Enviado;
        self.ordenes.insert(orden_id, orden);
        Ok(())
    }

    /// The buyer `caller` receives order `orden_id`, which must have been
    /// shipped: the product gets one more sale and the order an empty
    /// ratings record.
    pub fn marcar_orden_recibida(&mut self, caller: AccountId, orden_id: u128) -> (r: Result<
        (),
        ContractError,
    >)
        requires
            old(self).bien_formado(),
        ensures
            final(self).bien_formado(),
            (final(self)@, r) == old(self)@.marcar_recibida(caller, orden_id),
    {
        proof {
            lemma_marcar_recibida_invariante(self@, caller, orden_id);
        }
        let mut orden = match self.obtener_orden(orden_id) {
            Some(o) => o,
            None => return Err(ContractError::OrdenNoExiste),
        };
        if orden.comprador != caller {
            return Err(ContractError::NoAutorizado);
        }
        if orden.estado != EstadoOrden::Enviado {
            return Err(ContractError::EstadoInvalido);
        }
        let vendidas = self.obtener_ventas_producto(orden.producto_id);
        let nuevas = match vendidas.checked_add(1) {
            Some(n) => n,
            None => return Err(ContractError::Overflow),
        };
        orden.estado = EstadoOrden::Recibido;
        self.ordenes.insert(orden_id, orden);
        self.ventas.insert(orden.producto_id, nuevas);
        let vacias = CalificacionesOrden { calificacion_comprador: None, calificacion_vendedor: None };
        self.calificaciones.insert(orden_id, vacias);
        Ok(())
    }

    /// Puts `cantidad` units of product `producto_id` back in stock.
    fn devolver_stock(&mut self, producto_id: u128, cantidad: u32) -> (r: Result<(), ContractError>)
        ensures
            ({
                let p = old(self)@.productos[producto_id];
                if !old(self)@.productos.contains_key(producto_id) {
                    r == Err::<(), ContractError>(ContractError::ProductoNoEncontrado)
                        && *final(self) == *old(self)
                } else if p.cantidad + cantidad > u32::MAX {
                    r == Err::<(), ContractError>(ContractError::Overflow) && *final(self)
                        == *old(self)
                } else {
                    &&& r == Ok::<(), ContractError>(())
                    &&& *final(self) == (Marketplace { productos: final(self).productos, ..*old(self) })
                    &&& final(self)@.productos == old(self)@.productos.insert(
                        producto_id,
                        Producto { cantidad: (p.cantidad + cantidad) as u32, ..p },
                    )
                }
            }),
    {
        let mut producto = match self.productos.get(&producto_id) {
            Some(p) => p.clone(),
            None => return Err(ContractError::ProductoNoEncontrado),
        };
        match producto.aumentar_stock(cantidad) {
            Ok(()) => {},
            Err(e) => return Err(e),
        }
        self.productos.insert(producto_id, producto);
        Ok(())
    }

    /// Records one party's consent `orden` for order `orden_id`; when both
    /// parties consent the order is cancelled and its units go back to stock.
    fn registrar_consentimiento(&mut self, orden_id: u128, orden: Orden) -> (r: Result<
        (),
        ContractError,
    >)
        requires
            old(self).bien_formado(),
            old(self)@.ordenes.contains_key(orden_id),
            old(self)@.ordenes[orden_id].estado.cancelable(),
            orden == (Orden {
                comprador_acepta_cancelar: orden.comprador_acepta_cancelar,
                vendedor_acepta_cancelar: orden.vendedor_acepta_cancelar,
                ..old(self)@.ordenes[orden_id]
            }),
        ensures
            final(self).bien_formado(),
            (final(self)@, r) == old(self)@.tras_consentimiento(orden_id, orden),
    {
        proof {
            lemma_consentimiento_invariante(self@, orden_id, orden);
        }
        let mut orden = orden;
        if orden.marcar_cancelada_si_ambos_aceptan() {
            match self.devolver_stock(orden.producto_id, orden.cantidad) {
                Ok(()) => {},
                Err(e) => return Err(e),
            }
        }
        self.ordenes.insert(orden_id, orden);
        Ok(())
    }

    /// The buyer `caller` asks to cancel order `orden_id`. The order is
    /// cancelled once the seller has agreed too.
    pub fn comprador_solicita_cancelacion(&mut self, caller: AccountId, orden_id: u128) -> (r:
        Result<(), ContractError>)
        requires
            old(self).bien_formado(),
        ensures
            final(self).bien_formado(),
            (final(self)@, r) == old(self)@.solicitar_cancelacion(caller, orden_id),
    {
        proof {
            lemma_solicitar_cancelacion_invariante(self@, caller, orden_id);
        }
        let mut orden = match self.obtener_orden(orden_id) {
            Some(o) => o,
            None => return Err(ContractError::OrdenNoExiste),
        };
        if orden.comprador != caller {
            return Err(ContractError::NoAutorizado);
        }
        if !orden.puede_cancelarse() {
            return Err(ContractError::EstadoInvalido);
        }
        orden.comprador_acepta_cancelar = true;
        self.registrar_consentimiento(orden_id, orden)
    }

    /// The seller `caller` agrees to cancel order `orden_id`. The order is
    /// cancelled once the buyer has asked too.
    pub fn vendedor_acepta_cancelacion(&mut self, caller: AccountId, orden_id: u128) -> (r: Result<
        (),
        ContractError,
    >)
        requires
            old(self).bien_formado(),
        ensures
            final(self).bien_formado(),
            (final(self)@, r) == old(self)@.aceptar_cancelacion(caller, orden_id),
    {
        proof {
            lemma_aceptar_cancelacion_invariante(self@, caller, orden_id);
        }
        let mut orden = match self.obtener_orden(orden_id) {
            Some(o) => o,
            None => return Err(ContractError::OrdenNoExiste),
        };
        if orden.vendedor != caller {
            return Err(ContractError::NoAutorizado);
        }
        if !orden.puede_cancelarse() {
            return Err(ContractError::EstadoInvalido);
        }
        orden.vendedor_acepta_cancelar = true;
        self.registrar_consentimiento(orden_id, orden)
    }

    /// Completed sales of product `producto_id`; zero if it has none.
    pub fn obtener_ventas_producto(&self, producto_id: u128) -> (r: u32)
        ensures
            r == self@.ventas_de(producto_id),
    {
        match self.ventas.get(&producto_id) {
            Some(v) => *v,
            None => 0,
        }
    }

    /// The ratings record of order `orden_id`, if it has one.
    pub fn obtener_calificaciones_orden(&self, orden_id: u128) -> (r: Option<CalificacionesOrden>)
        ensures
            r == (if self@.calificaciones.contains_key(orden_id) {
                Some(self@.calificaciones[orden_id])
            } else {
                None
            }),
    {
        match self.calificaciones.get(&orden_id) {
            Some(c) => Some(*c),
            None => None,
        }
    }

    /// The buyer `caller` scores the seller of the received order
    /// `orden_id`. The score counts in the seller's reputation and in the
    /// statistics of the product's category.
    pub fn comprador_califica_vendedor(&mut self, caller: AccountId, orden_id: u128, calificacion: u8)
        -> (r: Result<(), ContractError>)
        requires
            old(self).bien_formado(),
        ensures
            final(self).bien_formado(),
            (final(self)@, r) == old(self)@.calificar_vendedor(caller, orden_id, calificacion),
    {
        proof {
            lemma_calificar_vendedor_invariante(self@, caller, orden_id, calificacion);
        }
        match validar_calificacion(calificacion) {
            Ok(()) => {},
            Err(e) => return Err(e),
        }
        let orden = match self.obtener_orden(orden_id) {
            Some(o) => o,
            None => return Err(ContractError::OrdenNoExiste),
        };
        if orden.comprador != caller {
            return Err(ContractError::NoAutorizado);
        }
        if orden.estado != EstadoOrden::Recibido {
            return Err(ContractError::OrdenNoRecibida);
        }
        let mut calificaciones = match self.obtener_calificaciones_orden(orden_id) {
            Some(c) => c,
            None => return Err(ContractError::EstadoInvalido),
        };
        if calificaciones.calificacion_comprador.is_some() {
            return Err(ContractError::YaCalificado);
        }
        match calificar_cuenta(&mut self.reputaciones, orden.vendedor, calificacion, true) {
            Ok(()) => {},
            Err(e) => return Err(e),
        }
        calificaciones.calificacion_comprador = Some(calificacion);
        self.calificaciones.insert(orden_id, calificaciones);
        match self.productos.get(&orden.producto_id) {
            Some(p) => {
                let categoria = p.categoria.clone();
                acumular_estadisticas(&mut self.estadisticas, categoria, calificacion);
            },
            None => {},
        }
        Ok(())
    }

    /// The seller `caller` scores the buyer of the received order
    /// `orden_id`. The score counts in the buyer's reputation.
    pub fn vendedor_califica_comprador(&mut self, caller: AccountId, orden_id: u128, calificacion: u8)
        -> (r: Result<(), ContractError>)
        requires
            old(self).bien_formado(),
        ensures
            final(self).bien_formado(),
            (final(self)@, r) == old(self)@.calificar_comprador(caller, orden_id, calificacion),
    {
        proof {
            lemma_calificar_comprador_invariante(self@, caller, orden_id, calificacion);
        }
        match validar_calificacion(calificacion) {
            Ok(()) => {},
            Err(e) => return Err(e),
        }
        let orden = match self.obtener_orden(orden_id) {
            Some(o) => o,
            None => return Err(ContractError::OrdenNoExiste),
        };
        if orden.vendedor != caller {
            return Err(ContractError::NoAutorizado);
        }
        if orden.estado != EstadoOrden::Recibido {
            return Err(ContractError::OrdenNoRecibida);
        }
        let mut calificaciones = match self.obtener_calificaciones_orden(orden_id) {
            Some(c) => c,
            None => return Err(ContractError::EstadoInvalido),
        };
        if calificaciones.calificacion_vendedor.is_some() {
            return Err(ContractError::YaCalificado);
        }
        match calificar_cuenta(&mut self.reputaciones, orden.comprador, calificacion, false) {
            Ok(()) => {},
            Err(e) => return Err(e),
        }
        calificaciones.calificacion_vendedor = Some(calificacion);
        self.calificaciones.insert(orden_id, calificaciones);
        Ok(())
    }

    /// The state of order `orden_id`, if it exists.
    pub fn obtener_estado_orden(&self, orden_id: u128) -> (r: Option<EstadoOrden>)
        ensures
            r == (if self@.ordenes.contains_key(orden_id) {
                Some(self@.ordenes[orden_id].estado)
            } else {
                None
            }),
    {
        match self.ordenes.get(&orden_id) {
            Some(o) => Some(o.estado),
            None => None,
        }
    }

    /// The product `producto_id`, if it exists.
    pub fn obtener_producto(&self, producto_id: u128) -> (r: Option<Producto>)
        ensures
            r == (if self@.productos.contains_key(producto_id) {
                Some(self@.productos[producto_id])
            } else {
                None
            }),
    {
        match self.productos.get(&producto_id) {
            Some(p) => Some(p.clone()),
            None => None,
        }
    }

    /// The products that `caller` published, in the order of publication.
    pub fn ver_mis_productos(&self, caller: AccountId) -> (r: Vec<(u128, Producto)>)
        requires
            self.bien_formado(),
        ensures
            r@ == proyeccion(self@.productos, lista_de(self@.productos_por_usuario, caller)),
    {
        let ghost indice = indice_vista(self.productos_por_usuario@);
        proof {
            lemma_mapa_dominio(indice, caller);
        }
        let mut acc: Vec<(u128, Producto)> = Vec::new();
        match buscar_cuenta(&self.productos_por_usuario, &caller) {
            None => {
                proof {
                    assert(!mapa(indice).contains_key(caller));
                }
            },
            Some(i) => {
                proof {
                    lemma_mapa_valor(indice, i as int);
                }
                let ids = &self.productos_por_usuario[i].1;
                let mut k: usize = 0;
                while k < ids.len()
                    invariant
                        k <= ids@.len(),
                        acc@ == proyeccion(self@.productos, ids@.take(k as int)),
                    decreases ids@.len() - k,
                {
                    let id = ids[k];
                    proof {
                        assert(ids@.take(k + 1).drop_last() =~= ids@.take(k as int));
                    }
                    match self.productos.get(&id) {
                        Some(p) => acc.push((id, p.clone())),
                        None => {},
                    }
                    k = k + 1;
                }
                proof {
                    assert(ids@.take(k as int) =~= ids@);
                }
            },
        }
        acc
    }

    /// Every product, by increasing identifier.
    pub fn ver_todos_los_productos(&self) -> (r: Vec<(u128, Producto)>)
        requires
            self.bien_formado(),
        ensures
            r@ == listado(self@.productos, self@.siguiente_producto_id as int),
    {
        let mut acc: Vec<(u128, Producto)> = Vec::new();
        let mut id: u128 = 1;
        while id < self.siguiente_producto_id
            invariant
                1 <= id <= self.siguiente_producto_id,
                acc@ == listado(self@.productos, id as int),
            decreases self.siguiente_producto_id - id,
        {
            match self.productos.get(&id) {
                Some(p) => acc.push((id, p.clone())),
                None => {},
            }
            id = id + 1;
        }
        acc
    }

    /// The reputation of `usuario`, if it has received a score.
    pub fn obtener_reputacion(&self, usuario: AccountId) -> (r: Option<ReputacionData>)
        requires
            self.bien_formado(),
        ensures
            r == (if self@.reputaciones.contains_key(usuario) {
                Some(self@.reputaciones[usuario])
            } else {
                None
            }),
    {
        proof {
            lemma_mapa_dominio(self.reputaciones@, usuario);
        }
        match buscar_cuenta(&self.reputaciones, &usuario) {
            Some(i) => {
                proof {
                    lemma_mapa_valor(self.reputaciones@, i as int);
                }
                Some(self.reputaciones[i].1)
            },
            None => None,
        }
    }

    /// Average score that `usuario` has received as buyer, if any.
    pub fn reputacion_como_comprador(&self, usuario: AccountId) -> (r: Option<u128>)
        requires
            self.bien_formado(),
        ensures
            r == (if self@.reputaciones.contains_key(usuario) {
                media(
                    self@.reputaciones[usuario].suma_calificaciones_comprador,
                    self@.reputaciones[usuario].total_calificaciones_comprador,
                )
            } else {
                None
            }),
    {
        match self.obtener_reputacion(usuario) {
            Some(rep) => rep.promedio_comprador(),
            None => None,
        }
    }

    /// Average score that `usuario` has received as seller, if any.
    pub fn reputacion_como_vendedor(&self, usuario: AccountId) -> (r: Option<u128>)
        requires
            self.bien_formado(),
        ensures
            r == (if self@.reputaciones.contains_key(usuario) {
                media(
                    self@.reputaciones[usuario].suma_calificaciones_vendedor,
                    self@.reputaciones[usuario].total_calificaciones_vendedor,
                )
            } else {
                None
            }),
    {
        match self.obtener_reputacion(usuario) {
            Some(rep) => rep.promedio_vendedor(),
            None => None,
        }
    }

    /// Completed sales, sum of scores and number of scores of `categoria`,
    /// if it has any.
    pub fn obtener_estadisticas_categoria(&self, categoria: String) -> (r: Option<(u32, u128, u32)>)
        requires
            self.bien_formado(),
        ensures
            r == (if self@.estadisticas.contains_key(categoria@) {
                Some(self@.estadisticas[categoria@])
            } else {
                None
            }),
    {
        let ghost vista = estadisticas_vista(self.estadisticas@);
        proof {
            lemma_mapa_dominio(vista, categoria@);
        }
        match buscar_texto(&self.estadisticas, &categoria) {
            Some(i) => {
                proof {
                    lemma_mapa_valor(vista, i as int);
                }
                Some(self.estadisticas[i].1)
            },
            None => None,
        }
    }

    /// Number of orders that `usuario` has made, as a `u32` (the count is
    /// taken modulo 2^32).
    pub fn cantidad_ordenes_usuario(&self, usuario: AccountId) -> (r: u32)
        requires
            self.bien_formado(),
        ensures
            r == lista_de(self@.ordenes_por_usuario, usuario).len() as u32,
    {
        let ghost indice = indice_vista(self.ordenes_por_usuario@);
        proof {
            lemma_mapa_dominio(indice, usuario);
        }
        match buscar_cuenta(&self.ordenes_por_usuario, &usuario) {
            Some(i) => {
                proof {
                    lemma_mapa_valor(indice, i as int);
                }
                self.ordenes_por_usuario[i].1.len() as u32
            },
            None => 0,
        }
    }

    /// Every registered account that has received a score, in the order in
    /// which they registered, each with its reputation.
    pub fn obtener_usuarios_con_reputacion(&self) -> (r: Vec<(AccountId, ReputacionData)>)
        requires
            self.bien_formado(),
        ensures
            r@ == con_reputacion(self@.usuarios, self@.reputaciones),
    {
        let ghost cuentas = self@.usuarios;
        let mut resultado: Vec<(AccountId, ReputacionData)> = Vec::new();
        let mut i: usize = 0;
        while i < self.usuarios.len()
            invariant
                i <= self.usuarios@.len(),
                cuentas == self@.usuarios,
                cuentas.len() == self.usuarios@.len(),
                claves_unicas(self.reputaciones@),
                resultado@ == con_reputacion(cuentas.take(i as int), self@.reputaciones),
            decreases self.usuarios@.len() - i,
        {
            let cuenta = self.usuarios[i].0;
            proof {
                assert(cuentas.take(i + 1).drop_last() =~= cuentas.take(i as int));
                assert(cuentas[i as int] == cuenta);
                lemma_mapa_dominio(self.reputaciones@, cuenta);
            }
            match buscar_cuenta(&self.reputaciones, &cuenta) {
                Some(j) => {
                    proof {
                        lemma_mapa_valor(self.reputaciones@, j as int);
                    }
                    resultado.push((cuenta, self.reputaciones[j].1));
                },
                None => {},
            }
            i = i + 1;
        }
        proof {
            assert(cuentas.take(i as int) =~= cuentas);
        }
        resultado
    }
}

} // verus!
