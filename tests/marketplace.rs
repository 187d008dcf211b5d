use marketplace::{
    AccountId, CalificacionesOrden, ContractError, EstadoOrden, Marketplace, Producto,
    ReputacionData, Roles,
};

struct Cuentas {
    alice: AccountId,
    bob: AccountId,
    charlie: AccountId,
}

fn default_accounts() -> Cuentas {
    Cuentas {
        alice: AccountId([0x01; 32]),
        bob: AccountId([0x02; 32]),
        charlie: AccountId([0x03; 32]),
    }
}

fn init_contract() -> Marketplace {
    Marketplace::new()
}

#[test]
fn registrar_y_obtener_rol_funciona() {
    let accounts = default_accounts();
    let mut c = init_contract();
    assert_eq!(c.registrar_usuario(accounts.alice, Roles::Comprador), Ok(()));
    assert_eq!(c.obtener_rol(accounts.alice), Some(Roles::Comprador));
}

#[test]
fn no_se_puede_registrar_dos_veces() {
    let accounts = default_accounts();
    let mut c = init_contract();
    let _ = c.registrar_usuario(accounts.alice, Roles::Vendedor);
    assert_eq!(c.registrar_usuario(accounts.alice, Roles::Comprador), Err(ContractError::YaRegistrado));
}

#[test]
fn modificar_rol_funciona_y_falla_si_no_registrado() {
    let accounts = default_accounts();
    let mut c = init_contract();
    assert_eq!(c.modificar_rol(accounts.alice, Roles::Ambos), Err(ContractError::UsuarioNoRegistrado));
    c.registrar_usuario(accounts.alice, Roles::Comprador).unwrap();
    assert_eq!(c.modificar_rol(accounts.alice, Roles::Vendedor), Ok(()));
    // Widening Comprador with Vendedor grants both capabilities.
    assert_eq!(c.obtener_rol(accounts.alice), Some(Roles::Ambos));
}

#[test]
fn publicar_producto_funciona() {
    let accounts = default_accounts();
    let mut c = init_contract();
    c.registrar_usuario(accounts.bob, Roles::Vendedor).unwrap();
    let id = c
        .publicar_producto(accounts.bob, "Camisa".into(), "Camisa de lino".into(), 100, 3, "Ropa".into())
        .unwrap();
    assert_eq!(id, 1);
}

#[test]
fn publicar_producto_con_rol_invalido_falla() {
    let accounts = default_accounts();
    let mut c = init_contract();
    assert_eq!(
        c.publicar_producto(accounts.alice, "A".into(), "B".into(), 1, 1, "X".into()),
        Err(ContractError::NoVendedor)
    );
}

#[test]
fn crear_orden_funciona_y_valida_stock() {
    let accounts = default_accounts();
    let mut c = init_contract();
    c.registrar_usuario(accounts.alice, Roles::Comprador).unwrap();
    c.registrar_usuario(accounts.bob, Roles::Vendedor).unwrap();

    c.publicar_producto(accounts.bob, "Libro".into(), "Rust".into(), 500, 5, "Libros".into()).unwrap();
    let oid = c.crear_orden_de_compra(accounts.alice, 1, 3).unwrap();
    assert_eq!(oid, 1);

    assert_eq!(c.crear_orden_de_compra(accounts.alice, 1, 10), Err(ContractError::StockInsuficiente));
    assert_eq!(c.crear_orden_de_compra(accounts.alice, 999, 1), Err(ContractError::ProductoNoEncontrado));
}

#[test]
fn crear_orden_por_usuario_no_autorizado_falla() {
    let accounts = default_accounts();
    let mut c = init_contract();
    c.registrar_usuario(accounts.bob, Roles::Vendedor).unwrap();
    c.publicar_producto(accounts.bob, "Item".into(), "Desc".into(), 1, 1, "C".into()).unwrap();
    assert_eq!(c.crear_orden_de_compra(accounts.charlie, 1, 1), Err(ContractError::NoAutorizado));
}

#[test]
fn orden_estado_transiciones_correctas() {
    let accounts = default_accounts();
    let mut c = init_contract();
    c.registrar_usuario(accounts.alice, Roles::Comprador).unwrap();
    c.registrar_usuario(accounts.bob, Roles::Vendedor).unwrap();

    c.publicar_producto(accounts.bob, "Mouse".into(), "Gaming".into(), 200, 2, "Perifericos".into()).unwrap();
    let oid = c.crear_orden_de_compra(accounts.alice, 1, 1).unwrap();

    assert_eq!(c.marcar_orden_enviada(accounts.bob, oid), Ok(()));
    assert_eq!(c.marcar_orden_recibida(accounts.alice, oid), Ok(()));
}

#[test]
fn estado_invalido_en_transiciones() {
    let accounts = default_accounts();
    let mut c = init_contract();
    c.registrar_usuario(accounts.alice, Roles::Comprador).unwrap();
    c.registrar_usuario(accounts.bob, Roles::Vendedor).unwrap();

    c.publicar_producto(accounts.bob, "K".into(), "J".into(), 2, 2, "Z".into()).unwrap();
    let oid = c.crear_orden_de_compra(accounts.alice, 1, 1).unwrap();

    c.marcar_orden_enviada(accounts.bob, oid).unwrap();
    assert_eq!(c.marcar_orden_enviada(accounts.bob, oid), Err(ContractError::EstadoInvalido));
    assert_eq!(c.marcar_orden_recibida(accounts.bob, oid), Err(ContractError::NoAutorizado));
    assert_eq!(c.marcar_orden_recibida(accounts.alice, oid), Ok(()));
    assert_eq!(c.marcar_orden_recibida(accounts.alice, oid), Err(ContractError::EstadoInvalido));
}

#[test]
fn cancelacion_mutua_funciona() {
    let accounts = default_accounts();
    let mut c = init_contract();
    c.registrar_usuario(accounts.alice, Roles::Comprador).unwrap();
    c.registrar_usuario(accounts.bob, Roles::Vendedor).unwrap();

    c.publicar_producto(accounts.bob, "Café".into(), "Molido".into(), 100, 1, "Alimentos".into()).unwrap();
    let oid = c.crear_orden_de_compra(accounts.alice, 1, 1).unwrap();

    assert_eq!(c.comprador_solicita_cancelacion(accounts.alice, oid), Ok(()));
    assert_eq!(c.vendedor_acepta_cancelacion(accounts.bob, oid), Ok(()));

    let orden = c.obtener_orden(oid).unwrap();
    assert_eq!(orden.estado, EstadoOrden::Cancelada);
}

#[test]
fn solo_uno_cancela_no_avanza_estado() {
    let accounts = default_accounts();
    let mut c = init_contract();
    c.registrar_usuario(accounts.alice, Roles::Comprador).unwrap();
    c.registrar_usuario(accounts.bob, Roles::Vendedor).unwrap();

    c.publicar_producto(accounts.bob, "Mate".into(), "Dulce".into(), 100, 1, "Bebidas".into()).unwrap();
    let oid = c.crear_orden_de_compra(accounts.alice, 1, 1).unwrap();

    c.comprador_solicita_cancelacion(accounts.alice, oid).unwrap();
    let orden = c.obtener_orden(oid).unwrap();
    assert_eq!(orden.estado, EstadoOrden::Pendiente);
}

#[test]
fn acciones_sobre_orden_inexistente_fallan() {
    let accounts = default_accounts();
    let mut c = init_contract();
    assert_eq!(c.marcar_orden_enviada(accounts.bob, 123), Err(ContractError::OrdenNoExiste));
    assert_eq!(c.marcar_orden_recibida(accounts.alice, 123), Err(ContractError::OrdenNoExiste));
    assert_eq!(c.vendedor_acepta_cancelacion(accounts.bob, 123), Err(ContractError::OrdenNoExiste));
    assert_eq!(c.comprador_solicita_cancelacion(accounts.alice, 123), Err(ContractError::OrdenNoExiste));
}

#[test]
fn ver_mis_productos_y_todos_funciona() {
    let accounts = default_accounts();
    let mut c = init_contract();
    c.registrar_usuario(accounts.bob, Roles::Vendedor).unwrap();
    c.publicar_producto(accounts.bob, "A".into(), "B".into(), 1, 1, "X".into()).unwrap();
    c.publicar_producto(accounts.bob, "C".into(), "D".into(), 1, 1, "Y".into()).unwrap();

    let personales = c.ver_mis_productos(accounts.bob);
    assert_eq!(personales.len(), 2);

    let todos = c.ver_todos_los_productos();
    assert_eq!(todos.len(), 2);
}

#[test]
fn overflow_en_productos_y_ordenes() {
    let accounts = default_accounts();
    let mut c = Marketplace::con_siguientes_ids(u128::MAX, u128::MAX);
    c.registrar_usuario(accounts.alice, Roles::Comprador).unwrap();
    c.registrar_usuario(accounts.bob, Roles::Vendedor).unwrap();
    let prod = c.publicar_producto(accounts.bob, "Z".into(), "Z".into(), 1, 1, "Z".into());
    assert_eq!(prod, Err(ContractError::Overflow));

    let mut c = Marketplace::con_siguientes_ids(1, u128::MAX);
    c.registrar_usuario(accounts.alice, Roles::Comprador).unwrap();
    c.registrar_usuario(accounts.bob, Roles::Vendedor).unwrap();
    c.publicar_producto(accounts.bob, "A".into(), "B".into(), 1, 1, "C".into()).unwrap();
    let orden = c.crear_orden_de_compra(accounts.alice, 1, 1);
    assert_eq!(orden, Err(ContractError::Overflow));
    // The failed order left the stock untouched.
    assert_eq!(c.obtener_producto(1).unwrap().cantidad, 1);
}

#[test]
fn public_registrar_usuario_mensaje() {
    let accounts = default_accounts();
    let mut c = init_contract();
    assert_eq!(c.registrar_usuario(accounts.alice, Roles::Comprador), Ok(()));
    assert_eq!(c.registrar_usuario(accounts.alice, Roles::Vendedor), Err(ContractError::YaRegistrado));
}

#[test]
fn public_modificar_rol_mensaje() {
    let accounts = default_accounts();
    let mut c = init_contract();
    assert_eq!(c.modificar_rol(accounts.bob, Roles::Vendedor), Err(ContractError::UsuarioNoRegistrado));
    assert_eq!(c.registrar_usuario(accounts.bob, Roles::Ambos), Ok(()));
    assert_eq!(c.modificar_rol(accounts.bob, Roles::Vendedor), Ok(()));
}

#[test]
fn public_obtener_rol_mensaje() {
    let accounts = default_accounts();
    let mut c = init_contract();
    assert_eq!(c.obtener_rol(accounts.charlie), None);
    c.registrar_usuario(accounts.charlie, Roles::Ambos).unwrap();
    assert_eq!(c.obtener_rol(accounts.charlie), Some(Roles::Ambos));
}

#[test]
fn public_publicar_producto_mensaje() {
    let accounts = default_accounts();
    let mut c = init_contract();
    assert_eq!(
        c.publicar_producto(accounts.alice, "X".into(), "Y".into(), 10, 1, "C".into()),
        Err(ContractError::NoVendedor)
    );
    c.registrar_usuario(accounts.alice, Roles::Vendedor).unwrap();
    let pid = c.publicar_producto(accounts.alice, "X".into(), "Y".into(), 10, 1, "C".into()).unwrap();
    assert_eq!(pid, 1);
}

#[test]
fn public_ver_productos_mensaje() {
    let accounts = default_accounts();
    let mut c = init_contract();
    c.registrar_usuario(accounts.alice, Roles::Vendedor).unwrap();
    c.publicar_producto(accounts.alice, "A".into(), "B".into(), 1, 1, "Cat".into()).unwrap();
    let own = c.ver_mis_productos(accounts.alice);
    assert_eq!(own.len(), 1);
    let all = c.ver_todos_los_productos();
    assert_eq!(all.len(), 1);
}

#[test]
fn public_crear_orden_de_compra_mensaje() {
    let accounts = default_accounts();
    let mut c = init_contract();
    c.registrar_usuario(accounts.alice, Roles::Vendedor).unwrap();
    let pid = c.publicar_producto(accounts.alice, "P".into(), "D".into(), 5, 2, "Cat".into()).unwrap();
    c.registrar_usuario(accounts.bob, Roles::Comprador).unwrap();
    let oid = c.crear_orden_de_compra(accounts.bob, pid, 1).unwrap();
    assert_eq!(oid, 1);
}

#[test]
fn public_marcar_enviada_recibida_mensajes() {
    let accounts = default_accounts();
    let mut c = init_contract();
    c.registrar_usuario(accounts.alice, Roles::Vendedor).unwrap();
    let pid = c.publicar_producto(accounts.alice, "P".into(), "D".into(), 5, 1, "Cat".into()).unwrap();
    c.registrar_usuario(accounts.bob, Roles::Comprador).unwrap();
    let oid = c.crear_orden_de_compra(accounts.bob, pid, 1).unwrap();
    assert_eq!(c.marcar_orden_enviada(accounts.alice, oid), Ok(()));
    assert_eq!(c.marcar_orden_recibida(accounts.bob, oid), Ok(()));
}

#[test]
fn public_cancelacion_mensajes() {
    let accounts = default_accounts();
    let mut c = init_contract();
    c.registrar_usuario(accounts.alice, Roles::Vendedor).unwrap();
    let pid = c.publicar_producto(accounts.alice, "C".into(), "D".into(), 5, 1, "Cat".into()).unwrap();
    c.registrar_usuario(accounts.bob, Roles::Comprador).unwrap();
    let oid = c.crear_orden_de_compra(accounts.bob, pid, 1).unwrap();
    assert_eq!(c.comprador_solicita_cancelacion(accounts.bob, oid), Ok(()));
    assert_eq!(c.vendedor_acepta_cancelacion(accounts.alice, oid), Ok(()));
}

#[test]
fn registrar_usuario_como_vendedor() {
    let accounts = default_accounts();
    let mut c = init_contract();
    assert_eq!(c.registrar_usuario(accounts.alice, Roles::Vendedor), Ok(()));
    assert_eq!(c.obtener_rol(accounts.alice), Some(Roles::Vendedor));
}

#[test]
fn registrar_usuario_como_ambos() {
    let accounts = default_accounts();
    let mut c = init_contract();
    assert_eq!(c.registrar_usuario(accounts.alice, Roles::Ambos), Ok(()));
    assert_eq!(c.obtener_rol(accounts.alice), Some(Roles::Ambos));
}

#[test]
fn modificar_rol_solo_permite_agregar_no_quitar() {
    let accounts = default_accounts();
    let mut c = init_contract();
    c.registrar_usuario(accounts.alice, Roles::Comprador).unwrap();
    assert_eq!(c.modificar_rol(accounts.alice, Roles::Vendedor), Ok(()));
    assert_eq!(c.obtener_rol(accounts.alice), Some(Roles::Ambos));

    c.registrar_usuario(accounts.bob, Roles::Vendedor).unwrap();
    assert_eq!(c.modificar_rol(accounts.bob, Roles::Comprador), Ok(()));
    assert_eq!(c.obtener_rol(accounts.bob), Some(Roles::Ambos));

    c.registrar_usuario(accounts.charlie, Roles::Ambos).unwrap();
    assert_eq!(c.modificar_rol(accounts.charlie, Roles::Vendedor), Ok(()));
    assert_eq!(c.obtener_rol(accounts.charlie), Some(Roles::Ambos));
}

fn con_vendedora() -> (Marketplace, Cuentas) {
    let accounts = default_accounts();
    let mut c = init_contract();
    c.registrar_usuario(accounts.alice, Roles::Vendedor).unwrap();
    (c, accounts)
}

#[test]
fn no_se_puede_publicar_con_nombre_vacio() {
    let (mut c, accounts) = con_vendedora();
    assert_eq!(
        c.publicar_producto(accounts.alice, "".into(), "Desc".into(), 100, 1, "Cat".into()),
        Err(ContractError::DatosInvalidos)
    );
}

#[test]
fn no_se_puede_publicar_con_descripcion_vacia() {
    let (mut c, accounts) = con_vendedora();
    assert_eq!(
        c.publicar_producto(accounts.alice, "Nombre".into(), "".into(), 100, 1, "Cat".into()),
        Err(ContractError::DatosInvalidos)
    );
}

#[test]
fn no_se_puede_publicar_con_categoria_vacia() {
    let (mut c, accounts) = con_vendedora();
    assert_eq!(
        c.publicar_producto(accounts.alice, "Nombre".into(), "Desc".into(), 100, 1, "".into()),
        Err(ContractError::DatosInvalidos)
    );
}

#[test]
fn no_se_puede_publicar_con_precio_cero() {
    let (mut c, accounts) = con_vendedora();
    assert_eq!(
        c.publicar_producto(accounts.alice, "Nombre".into(), "Desc".into(), 0, 1, "Cat".into()),
        Err(ContractError::DatosInvalidos)
    );
}

#[test]
fn no_se_puede_publicar_con_cantidad_cero() {
    let (mut c, accounts) = con_vendedora();
    assert_eq!(
        c.publicar_producto(accounts.alice, "Nombre".into(), "Desc".into(), 100, 0, "Cat".into()),
        Err(ContractError::DatosInvalidos)
    );
}

/// A marketplace where alice buys from bob, who sells one product with
/// stock `stock`.
fn con_producto(stock: u32) -> (Marketplace, Cuentas, u128) {
    let accounts = default_accounts();
    let mut c = init_contract();
    c.registrar_usuario(accounts.alice, Roles::Comprador).unwrap();
    c.registrar_usuario(accounts.bob, Roles::Vendedor).unwrap();
    let pid = c
        .publicar_producto(accounts.bob, "Producto".into(), "Desc".into(), 100, stock, "Cat".into())
        .unwrap();
    (c, accounts, pid)
}

#[test]
fn no_se_puede_crear_orden_con_cantidad_cero() {
    let (mut c, accounts, _) = con_producto(5);
    assert_eq!(c.crear_orden_de_compra(accounts.alice, 1, 0), Err(ContractError::StockInsuficiente));
}

#[test]
fn no_se_puede_marcar_orden_recibida_desde_pendiente() {
    let (mut c, accounts, _) = con_producto(5);
    let oid = c.crear_orden_de_compra(accounts.alice, 1, 1).unwrap();
    assert_eq!(c.marcar_orden_recibida(accounts.alice, oid), Err(ContractError::EstadoInvalido));
}

#[test]
fn no_se_puede_retroceder_de_recibido_a_enviado() {
    let (mut c, accounts, _) = con_producto(5);
    let oid = c.crear_orden_de_compra(accounts.alice, 1, 1).unwrap();
    c.marcar_orden_enviada(accounts.bob, oid).unwrap();
    c.marcar_orden_recibida(accounts.alice, oid).unwrap();
    assert_eq!(c.marcar_orden_enviada(accounts.bob, oid), Err(ContractError::EstadoInvalido));
}

#[test]
fn no_se_puede_retroceder_de_recibido_a_pendiente() {
    let (mut c, accounts, _) = con_producto(5);
    let oid = c.crear_orden_de_compra(accounts.alice, 1, 1).unwrap();
    c.marcar_orden_enviada(accounts.bob, oid).unwrap();
    c.marcar_orden_recibida(accounts.alice, oid).unwrap();
    let orden = c.obtener_orden(oid).unwrap();
    assert_eq!(orden.estado, EstadoOrden::Recibido);
}

#[test]
fn cancelacion_devuelve_stock() {
    let (mut c, accounts, pid) = con_producto(5);
    assert_eq!(c.obtener_producto(pid).unwrap().cantidad, 5);
    let oid = c.crear_orden_de_compra(accounts.alice, pid, 2).unwrap();
    assert_eq!(c.obtener_producto(pid).unwrap().cantidad, 3);
    c.comprador_solicita_cancelacion(accounts.alice, oid).unwrap();
    c.vendedor_acepta_cancelacion(accounts.bob, oid).unwrap();
    assert_eq!(c.obtener_producto(pid).unwrap().cantidad, 5);
}

#[test]
fn obtener_estado_orden_funciona() {
    let (mut c, accounts, _) = con_producto(5);
    let oid = c.crear_orden_de_compra(accounts.alice, 1, 1).unwrap();
    assert_eq!(c.obtener_estado_orden(oid), Some(EstadoOrden::Pendiente));
    c.marcar_orden_enviada(accounts.bob, oid).unwrap();
    assert_eq!(c.obtener_estado_orden(oid), Some(EstadoOrden::Enviado));
    c.marcar_orden_recibida(accounts.alice, oid).unwrap();
    assert_eq!(c.obtener_estado_orden(oid), Some(EstadoOrden::Recibido));
}

#[test]
fn obtener_estado_orden_inexistente() {
    let c = init_contract();
    assert_eq!(c.obtener_estado_orden(999), None);
}

/// `con_producto(5)` with one unit ordered, shipped and received.
fn con_orden_recibida() -> (Marketplace, Cuentas, u128) {
    let (mut c, accounts, pid) = con_producto(5);
    let oid = c.crear_orden_de_compra(accounts.alice, pid, 1).unwrap();
    c.marcar_orden_enviada(accounts.bob, oid).unwrap();
    c.marcar_orden_recibida(accounts.alice, oid).unwrap();
    (c, accounts, oid)
}

#[test]
fn comprador_califica_vendedor_funciona() {
    let (mut c, accounts, oid) = con_orden_recibida();
    assert_eq!(c.comprador_califica_vendedor(accounts.alice, oid, 5), Ok(()));
    let calificaciones = c.obtener_calificaciones_orden(oid).unwrap();
    assert_eq!(calificaciones.calificacion_comprador, Some(5));
    assert_eq!(calificaciones.calificacion_vendedor, None);
    let reputacion = c.obtener_reputacion(accounts.bob).unwrap();
    assert_eq!(reputacion.promedio_vendedor(), Some(5));
}

#[test]
fn vendedor_califica_comprador_funciona() {
    let (mut c, accounts, oid) = con_orden_recibida();
    assert_eq!(c.vendedor_califica_comprador(accounts.bob, oid, 4), Ok(()));
    let calificaciones = c.obtener_calificaciones_orden(oid).unwrap();
    assert_eq!(calificaciones.calificacion_comprador, None);
    assert_eq!(calificaciones.calificacion_vendedor, Some(4));
    let reputacion = c.obtener_reputacion(accounts.alice).unwrap();
    assert_eq!(reputacion.promedio_comprador(), Some(4));
}

#[test]
fn no_se_puede_calificar_si_orden_no_recibida() {
    let (mut c, accounts, pid) = con_producto(5);
    let oid = c.crear_orden_de_compra(accounts.alice, pid, 1).unwrap();
    assert_eq!(c.comprador_califica_vendedor(accounts.alice, oid, 5), Err(ContractError::OrdenNoRecibida));
}

#[test]
fn no_se_puede_calificar_dos_veces() {
    let (mut c, accounts, oid) = con_orden_recibida();
    assert_eq!(c.comprador_califica_vendedor(accounts.alice, oid, 5), Ok(()));
    assert_eq!(c.comprador_califica_vendedor(accounts.alice, oid, 4), Err(ContractError::YaCalificado));
}

#[test]
fn calificacion_invalida_fuera_de_rango() {
    let (mut c, accounts, oid) = con_orden_recibida();
    assert_eq!(c.comprador_califica_vendedor(accounts.alice, oid, 0), Err(ContractError::CalificacionInvalida));
    assert_eq!(c.comprador_califica_vendedor(accounts.alice, oid, 6), Err(ContractError::CalificacionInvalida));
}

#[test]
fn reputacion_acumulada_multiple_calificaciones() {
    let accounts = default_accounts();
    let mut c = init_contract();
    c.registrar_usuario(accounts.alice, Roles::Comprador).unwrap();
    c.registrar_usuario(accounts.bob, Roles::Vendedor).unwrap();
    c.registrar_usuario(accounts.charlie, Roles::Comprador).unwrap();

    let pid1 = c
        .publicar_producto(accounts.bob, "Producto1".into(), "Desc".into(), 100, 10, "Cat1".into())
        .unwrap();
    let oid1 = c.crear_orden_de_compra(accounts.alice, pid1, 1).unwrap();
    c.marcar_orden_enviada(accounts.bob, oid1).unwrap();
    c.marcar_orden_recibida(accounts.alice, oid1).unwrap();
    c.comprador_califica_vendedor(accounts.alice, oid1, 5).unwrap();

    let pid2 = c
        .publicar_producto(accounts.bob, "Producto2".into(), "Desc".into(), 100, 10, "Cat1".into())
        .unwrap();
    let oid2 = c.crear_orden_de_compra(accounts.charlie, pid2, 1).unwrap();
    c.marcar_orden_enviada(accounts.bob, oid2).unwrap();
    c.marcar_orden_recibida(accounts.charlie, oid2).unwrap();
    c.comprador_califica_vendedor(accounts.charlie, oid2, 3).unwrap();

    let reputacion = c.obtener_reputacion(accounts.bob).unwrap();
    assert_eq!(reputacion.promedio_vendedor(), Some(4));
    assert_eq!(reputacion.total_calificaciones_vendedor, 2);
}

#[test]
fn obtener_reputacion_como_comprador_y_vendedor() {
    let accounts = default_accounts();
    let mut c = init_contract();
    c.registrar_usuario(accounts.alice, Roles::Ambos).unwrap();
    c.registrar_usuario(accounts.bob, Roles::Ambos).unwrap();
    let pid = c
        .publicar_producto(accounts.alice, "Producto".into(), "Desc".into(), 100, 5, "Cat".into())
        .unwrap();
    let oid = c.crear_orden_de_compra(accounts.bob, pid, 1).unwrap();
    c.marcar_orden_enviada(accounts.alice, oid).unwrap();
    c.marcar_orden_recibida(accounts.bob, oid).unwrap();
    c.comprador_califica_vendedor(accounts.bob, oid, 5).unwrap();
    c.vendedor_califica_comprador(accounts.alice, oid, 4).unwrap();

    let reputacion_alice = c.obtener_reputacion(accounts.alice).unwrap();
    assert_eq!(reputacion_alice.promedio_vendedor(), Some(5));
    let reputacion_bob = c.obtener_reputacion(accounts.bob).unwrap();
    assert_eq!(reputacion_bob.promedio_comprador(), Some(4));
}

#[test]
fn ventas_por_producto_se_registran() {
    let (mut c, accounts, pid) = con_producto(10);
    assert_eq!(c.obtener_ventas_producto(pid), 0);
    let oid = c.crear_orden_de_compra(accounts.alice, pid, 1).unwrap();
    c.marcar_orden_enviada(accounts.bob, oid).unwrap();
    assert_eq!(c.obtener_ventas_producto(pid), 0);
    c.marcar_orden_recibida(accounts.alice, oid).unwrap();
    assert_eq!(c.obtener_ventas_producto(pid), 1);
}

#[test]
fn estadisticas_por_categoria() {
    let accounts = default_accounts();
    let mut c = init_contract();
    c.registrar_usuario(accounts.alice, Roles::Comprador).unwrap();
    c.registrar_usuario(accounts.bob, Roles::Vendedor).unwrap();
    let pid = c
        .publicar_producto(accounts.bob, "Producto".into(), "Desc".into(), 100, 5, "Electronica".into())
        .unwrap();
    let oid = c.crear_orden_de_compra(accounts.alice, pid, 1).unwrap();
    c.marcar_orden_enviada(accounts.bob, oid).unwrap();
    c.marcar_orden_recibida(accounts.alice, oid).unwrap();
    c.comprador_califica_vendedor(accounts.alice, oid, 5).unwrap();

    let stats = c.obtener_estadisticas_categoria("Electronica".into()).unwrap();
    assert_eq!(stats.0, 1);
    assert_eq!(stats.1, 5);
    assert_eq!(stats.2, 1);
}

// ----- further cases -----

#[test]
fn escenario_venta_completa_con_calificacion() {
    let accounts = default_accounts();
    let mut c = init_contract();
    c.registrar_usuario(accounts.bob, Roles::Vendedor).unwrap();
    let pid = c
        .publicar_producto(accounts.bob, "Silla".into(), "Madera".into(), 40, 5, "Muebles".into())
        .unwrap();
    c.registrar_usuario(accounts.alice, Roles::Comprador).unwrap();
    let oid = c.crear_orden_de_compra(accounts.alice, pid, 2).unwrap();
    assert_eq!(c.obtener_producto(pid).unwrap().cantidad, 3);
    c.marcar_orden_enviada(accounts.bob, oid).unwrap();
    c.marcar_orden_recibida(accounts.alice, oid).unwrap();
    assert_eq!(c.obtener_ventas_producto(pid), 1);
    assert_eq!(
        c.obtener_calificaciones_orden(oid),
        Some(CalificacionesOrden { calificacion_comprador: None, calificacion_vendedor: None })
    );
    c.comprador_califica_vendedor(accounts.alice, oid, 5).unwrap();
    assert_eq!(c.reputacion_como_vendedor(accounts.bob), Some(5));
    assert_eq!(c.obtener_estadisticas_categoria("Muebles".into()), Some((1, 5, 1)));
}

#[test]
fn escenario_cancelacion_restaura_stock() {
    let (mut c, accounts, pid) = con_producto(5);
    let oid = c.crear_orden_de_compra(accounts.alice, pid, 2).unwrap();
    assert_eq!(c.obtener_producto(pid).unwrap().cantidad, 3);
    // Seller first, then buyer: the order does not matter.
    c.vendedor_acepta_cancelacion(accounts.bob, oid).unwrap();
    assert_eq!(c.obtener_estado_orden(oid), Some(EstadoOrden::Pendiente));
    assert_eq!(c.obtener_producto(pid).unwrap().cantidad, 3);
    c.comprador_solicita_cancelacion(accounts.alice, oid).unwrap();
    assert_eq!(c.obtener_estado_orden(oid), Some(EstadoOrden::Cancelada));
    assert_eq!(c.obtener_producto(pid).unwrap().cantidad, 5);
    // Stock comes back once only.
    assert_eq!(c.comprador_solicita_cancelacion(accounts.alice, oid), Err(ContractError::EstadoInvalido));
    assert_eq!(c.vendedor_acepta_cancelacion(accounts.bob, oid), Err(ContractError::EstadoInvalido));
    assert_eq!(c.obtener_producto(pid).unwrap().cantidad, 5);
}

#[test]
fn consentimiento_repetido_no_cambia_nada() {
    let (mut c, accounts, pid) = con_producto(5);
    let oid = c.crear_orden_de_compra(accounts.alice, pid, 1).unwrap();
    assert_eq!(c.comprador_solicita_cancelacion(accounts.alice, oid), Ok(()));
    assert_eq!(c.comprador_solicita_cancelacion(accounts.alice, oid), Ok(()));
    let orden = c.obtener_orden(oid).unwrap();
    assert_eq!(orden.estado, EstadoOrden::Pendiente);
    assert!(orden.comprador_acepta_cancelar);
    assert!(!orden.vendedor_acepta_cancelar);
    assert_eq!(c.obtener_producto(pid).unwrap().cantidad, 4);
}

#[test]
fn cancelacion_por_terceros_o_tras_recibir_falla() {
    let (mut c, accounts, oid) = con_orden_recibida();
    assert_eq!(c.comprador_solicita_cancelacion(accounts.bob, oid), Err(ContractError::NoAutorizado));
    assert_eq!(c.vendedor_acepta_cancelacion(accounts.alice, oid), Err(ContractError::NoAutorizado));
    assert_eq!(c.comprador_solicita_cancelacion(accounts.alice, oid), Err(ContractError::EstadoInvalido));
    assert_eq!(c.obtener_estado_orden(oid), Some(EstadoOrden::Recibido));
}

#[test]
fn cancelar_pedido_enviado() {
    let (mut c, accounts, pid) = con_producto(5);
    let oid = c.crear_orden_de_compra(accounts.alice, pid, 5).unwrap();
    assert_eq!(c.obtener_producto(pid).unwrap().cantidad, 0);
    assert_eq!(c.crear_orden_de_compra(accounts.alice, pid, 1), Err(ContractError::StockInsuficiente));
    c.marcar_orden_enviada(accounts.bob, oid).unwrap();
    c.comprador_solicita_cancelacion(accounts.alice, oid).unwrap();
    c.vendedor_acepta_cancelacion(accounts.bob, oid).unwrap();
    assert_eq!(c.obtener_estado_orden(oid), Some(EstadoOrden::Cancelada));
    assert_eq!(c.obtener_producto(pid).unwrap().cantidad, 5);
    assert_eq!(c.marcar_orden_recibida(accounts.alice, oid), Err(ContractError::EstadoInvalido));
}

#[test]
fn solo_partes_de_la_orden_la_mueven() {
    let (mut c, accounts, pid) = con_producto(5);
    let oid = c.crear_orden_de_compra(accounts.alice, pid, 1).unwrap();
    assert_eq!(c.marcar_orden_enviada(accounts.alice, oid), Err(ContractError::NoAutorizado));
    assert_eq!(c.marcar_orden_enviada(accounts.charlie, oid), Err(ContractError::NoAutorizado));
    assert_eq!(c.obtener_estado_orden(oid), Some(EstadoOrden::Pendiente));
}

#[test]
fn calificar_terceros_y_doble_calificacion_del_vendedor() {
    let (mut c, accounts, oid) = con_orden_recibida();
    assert_eq!(c.comprador_califica_vendedor(accounts.bob, oid, 5), Err(ContractError::NoAutorizado));
    assert_eq!(c.vendedor_califica_comprador(accounts.alice, oid, 5), Err(ContractError::NoAutorizado));
    assert_eq!(c.vendedor_califica_comprador(accounts.bob, oid, 2), Ok(()));
    assert_eq!(c.vendedor_califica_comprador(accounts.bob, oid, 3), Err(ContractError::YaCalificado));
    assert_eq!(c.vendedor_califica_comprador(accounts.bob, 77, 3), Err(ContractError::OrdenNoExiste));
    // Only the buyer's score of the seller feeds the category statistics.
    assert_eq!(c.obtener_estadisticas_categoria("Cat".into()), None);
    assert_eq!(c.reputacion_como_comprador(accounts.alice), Some(2));
    assert_eq!(c.reputacion_como_vendedor(accounts.alice), None);
}

#[test]
fn sin_calificaciones_no_hay_promedio() {
    let accounts = default_accounts();
    let c = init_contract();
    assert_eq!(c.obtener_reputacion(accounts.alice), None);
    assert_eq!(c.reputacion_como_vendedor(accounts.alice), None);
    let rep = ReputacionData::new();
    assert_eq!(rep.promedio_comprador(), None);
    assert_eq!(rep.promedio_vendedor(), None);
    assert_eq!(ReputacionData::default(), rep);
}

#[test]
fn promedio_por_division_entera() {
    let mut rep = ReputacionData::new();
    rep.agregar_calificacion_vendedor(5).unwrap();
    rep.agregar_calificacion_vendedor(3).unwrap();
    assert_eq!(rep.promedio_vendedor(), Some(4));
    rep.agregar_calificacion_vendedor(2).unwrap();
    assert_eq!(rep.promedio_vendedor(), Some(3));
    rep.agregar_calificacion_comprador(4).unwrap();
    rep.agregar_calificacion_comprador(5).unwrap();
    assert_eq!(rep.promedio_comprador(), Some(4));
}

#[test]
fn reputacion_desborda_sin_cambiar() {
    let mut rep = ReputacionData {
        total_calificaciones_comprador: u32::MAX,
        suma_calificaciones_comprador: 10,
        total_calificaciones_vendedor: 1,
        suma_calificaciones_vendedor: u128::MAX - 2,
    };
    let antes = rep;
    assert_eq!(rep.agregar_calificacion_comprador(1), Err(ContractError::Overflow));
    assert_eq!(rep.agregar_calificacion_vendedor(3), Err(ContractError::Overflow));
    assert_eq!(rep, antes);
    assert_eq!(rep.agregar_calificacion_vendedor(2), Ok(()));
    assert_eq!(rep.suma_calificaciones_vendedor, u128::MAX);
    assert_eq!(rep.total_calificaciones_vendedor, 2);
}

#[test]
fn producto_valida_y_repone_stock() {
    let accounts = default_accounts();
    let mut p = Producto {
        nombre: "N".into(),
        descripcion: "D".into(),
        precio: 1,
        cantidad: u32::MAX - 1,
        categoria: "C".into(),
        vendedor: accounts.bob,
    };
    assert_eq!(p.validar(), Ok(()));
    assert_eq!(p.aumentar_stock(2), Err(ContractError::Overflow));
    assert_eq!(p.cantidad, u32::MAX - 1);
    assert_eq!(p.aumentar_stock(1), Ok(()));
    assert_eq!(p.cantidad, u32::MAX);
    let copia = p.clone();
    assert_eq!(copia, p);
}

#[test]
fn roles_y_capacidades() {
    assert!(Roles::Comprador.es_comprador());
    assert!(!Roles::Comprador.es_vendedor());
    assert!(Roles::Vendedor.es_vendedor());
    assert!(!Roles::Vendedor.es_comprador());
    assert!(Roles::Ambos.es_comprador() && Roles::Ambos.es_vendedor());
    assert_eq!(Roles::Ambos.agregar_rol(Roles::Comprador), Ok(Roles::Ambos));
    assert_eq!(Roles::Comprador.agregar_rol(Roles::Comprador), Ok(Roles::Comprador));
    assert_eq!(Roles::Vendedor.agregar_rol(Roles::Vendedor), Ok(Roles::Vendedor));
    assert_eq!(Roles::Vendedor.agregar_rol(Roles::Ambos), Ok(Roles::Ambos));
}

#[test]
fn roles_se_amplian_con_cualquier_secuencia() {
    let accounts = default_accounts();
    let mut c = init_contract();
    c.registrar_usuario(accounts.alice, Roles::Vendedor).unwrap();
    c.modificar_rol(accounts.alice, Roles::Vendedor).unwrap();
    assert_eq!(c.obtener_rol(accounts.alice), Some(Roles::Vendedor));
    c.modificar_rol(accounts.alice, Roles::Comprador).unwrap();
    assert_eq!(c.obtener_rol(accounts.alice), Some(Roles::Ambos));
    c.modificar_rol(accounts.alice, Roles::Vendedor).unwrap();
    c.modificar_rol(accounts.alice, Roles::Comprador).unwrap();
    assert_eq!(c.obtener_rol(accounts.alice), Some(Roles::Ambos));
}

#[test]
fn listados_por_vendedor_y_en_orden() {
    let accounts = default_accounts();
    let mut c = init_contract();
    c.registrar_usuario(accounts.alice, Roles::Vendedor).unwrap();
    c.registrar_usuario(accounts.bob, Roles::Ambos).unwrap();
    c.publicar_producto(accounts.alice, "A".into(), "a".into(), 1, 1, "X".into()).unwrap();
    c.publicar_producto(accounts.bob, "B".into(), "b".into(), 2, 2, "Y".into()).unwrap();
    c.publicar_producto(accounts.alice, "C".into(), "c".into(), 3, 3, "X".into()).unwrap();
    let mias = c.ver_mis_productos(accounts.alice);
    assert_eq!(mias.iter().map(|(id, _)| *id).collect::<Vec<u128>>(), vec![1, 3]);
    assert_eq!(mias[1].1.nombre, "C");
    let todos = c.ver_todos_los_productos();
    assert_eq!(todos.iter().map(|(id, _)| *id).collect::<Vec<u128>>(), vec![1, 2, 3]);
    assert_eq!(todos[1].1.vendedor, accounts.bob);
    assert!(c.ver_mis_productos(accounts.charlie).is_empty());
}

#[test]
fn ordenes_por_usuario_y_usuarios_con_reputacion() {
    let (mut c, accounts, oid) = con_orden_recibida();
    c.registrar_usuario(accounts.charlie, Roles::Comprador).unwrap();
    c.crear_orden_de_compra(accounts.alice, 1, 1).unwrap();
    assert_eq!(c.cantidad_ordenes_usuario(accounts.alice), 2);
    assert_eq!(c.cantidad_ordenes_usuario(accounts.charlie), 0);
    assert!(c.obtener_usuarios_con_reputacion().is_empty());
    c.vendedor_califica_comprador(accounts.bob, oid, 3).unwrap();
    c.comprador_califica_vendedor(accounts.alice, oid, 4).unwrap();
    let con_rep = c.obtener_usuarios_con_reputacion();
    assert_eq!(con_rep.len(), 2);
    assert_eq!(con_rep[0].0, accounts.alice);
    assert_eq!(con_rep[0].1.suma_calificaciones_comprador, 3);
    assert_eq!(con_rep[1].0, accounts.bob);
    assert_eq!(con_rep[1].1.suma_calificaciones_vendedor, 4);
}

#[test]
fn cuentas_se_comparan_por_bytes() {
    let mut a = [7u8; 32];
    let b = AccountId(a);
    a[31] = 8;
    assert_ne!(AccountId(a), b);
    assert_eq!(AccountId([7u8; 32]), b);
}
