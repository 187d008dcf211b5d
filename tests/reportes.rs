use marketplace::{AccountId, ReportesView, ReputacionData};

fn cuenta(n: u8) -> AccountId {
    AccountId([n; 32])
}

fn rep(total_c: u32, suma_c: u128, total_v: u32, suma_v: u128) -> ReputacionData {
    ReputacionData {
        total_calificaciones_comprador: total_c,
        suma_calificaciones_comprador: suma_c,
        total_calificaciones_vendedor: total_v,
        suma_calificaciones_vendedor: suma_v,
    }
}

#[test]
fn crear_reportes_view_funciona() {
    let reportes = ReportesView::new(cuenta(1));
    assert_eq!(reportes.obtener_marketplace(), cuenta(1));
}

#[test]
fn actualizar_marketplace_funciona() {
    let mut reportes = ReportesView::new(cuenta(1));
    assert_eq!(reportes.obtener_marketplace(), cuenta(1));
    reportes.actualizar_marketplace(cuenta(2));
    assert_eq!(reportes.obtener_marketplace(), cuenta(2));
}

#[test]
fn cantidad_ordenes_usuario_retorna_cero_si_no_hay_marketplace() {
    assert_eq!(ReportesView::cantidad_ordenes_usuario(None), 0);
    assert_eq!(ReportesView::cantidad_ordenes_usuario(Some(7)), 7);
}

#[test]
fn top_vendedores_retorna_vacio_si_no_hay_marketplace() {
    let top = ReportesView::top_5_vendedores(&Vec::new());
    assert_eq!(top.len(), 0);
}

#[test]
fn top_compradores_retorna_vacio_si_no_hay_marketplace() {
    let top = ReportesView::top_5_compradores(&Vec::new());
    assert_eq!(top.len(), 0);
}

#[test]
fn productos_mas_vendidos_retorna_vacio_si_no_hay_marketplace() {
    let productos = ReportesView::productos_mas_vendidos(&Vec::new());
    assert_eq!(productos.len(), 0);
}

#[test]
fn estadisticas_por_categoria_retorna_vacio_si_no_hay_marketplace() {
    let stats = ReportesView::estadisticas_por_categoria(&Vec::new());
    assert_eq!(stats.len(), 0);
}

#[test]
fn top_vendedores_ordena_y_corta_en_cinco() {
    let usuarios = vec![
        (cuenta(1), rep(0, 0, 2, 8)),
        (cuenta(2), rep(3, 9, 0, 0)),
        (cuenta(3), rep(0, 0, 1, 5)),
        (cuenta(4), rep(0, 0, 2, 6)),
        (cuenta(5), rep(0, 0, 1, 4)),
        (cuenta(6), rep(0, 0, 1, 1)),
        (cuenta(7), rep(0, 0, 3, 14)),
        (cuenta(8), rep(0, 0, 1, 2)),
    ];
    let top = ReportesView::top_5_vendedores(&usuarios);
    assert_eq!(
        top,
        vec![(cuenta(3), 5), (cuenta(1), 4), (cuenta(5), 4), (cuenta(7), 4), (cuenta(4), 3)]
    );
    let compradores = ReportesView::top_5_compradores(&usuarios);
    assert_eq!(compradores, vec![(cuenta(2), 3)]);
}

#[test]
fn productos_mas_vendidos_descendente_estable() {
    let ventas = vec![(1u128, 3u32), (2, 7), (3, 3), (4, 0), (5, u32::MAX)];
    let orden = ReportesView::productos_mas_vendidos(&ventas);
    assert_eq!(orden, vec![(5, u32::MAX), (2, 7), (1, 3), (3, 3), (4, 0)]);
}

#[test]
fn estadisticas_por_categoria_agrupa_y_ordena() {
    let entradas = vec![
        ("Ropa".to_string(), Some((2u32, 9u128, 2u32))),
        ("Libros".to_string(), Some((1, 4, 1))),
        ("Ropa".to_string(), Some((2, 9, 2))),
        ("Juguetes".to_string(), None),
        ("Alimentos".to_string(), Some((3, 0, 0))),
    ];
    let stats = ReportesView::estadisticas_por_categoria(&entradas);
    assert_eq!(
        stats,
        vec![
            ("Alimentos".to_string(), 3, None),
            ("Libros".to_string(), 1, Some(4)),
            ("Ropa".to_string(), 4, Some(4)),
        ]
    );
}

#[test]
fn estadisticas_por_categoria_satura_sin_fallar() {
    let entradas = vec![
        ("b".to_string(), Some((u32::MAX, u128::MAX, 1u32))),
        ("a".to_string(), Some((1, 1, 1))),
        ("b".to_string(), Some((1, 1, 1))),
        ("ab".to_string(), Some((5, 10, 2))),
    ];
    let stats = ReportesView::estadisticas_por_categoria(&entradas);
    assert_eq!(
        stats,
        vec![
            ("a".to_string(), 1, Some(1)),
            ("ab".to_string(), 5, Some(5)),
            ("b".to_string(), u32::MAX, Some(u128::MAX / 2)),
        ]
    );
}
