use juan_vivi::modelos::{Celda, Registro};
use juan_vivi::repertorios::{
    buscar_repertorio, buscar_repertorio_flexible, celda_como_fecha, celda_como_str, elegir_hoja,
    es_modelo_bd, extraer_compareciente, incorporar_filas, reemplazar_repertorio, BaseRepertorios,
};
use juan_vivi::tabla::Tabla;

fn t(s: &str) -> Celda {
    Celda::Texto(s.to_string())
}

fn reg(rep: &str, ot: &str, fecha: &str, cliente: &str, materia: &str, comp: &str) -> Registro {
    Registro {
        repertorio: rep.to_string(),
        ot: ot.to_string(),
        fecha: fecha.to_string(),
        cliente: cliente.to_string(),
        materia: materia.to_string(),
        compareciente: comp.to_string(),
    }
}

#[test]
fn compareciente_salta_autofin() {
    assert_eq!(extraer_compareciente("AUTOFIN S.A.\r\n  Juan Perez \nOtro"), "Juan Perez");
    assert_eq!(extraer_compareciente("\n\nGlobal Soluciones Ltda\nAna"), "Ana");
    assert_eq!(extraer_compareciente("autofin\n   \n"), "");
    assert_eq!(extraer_compareciente(""), "");
}

#[test]
fn celdas_como_texto() {
    assert_eq!(celda_como_str(&Celda::Decimal { truncado: 3090, menor_que_uno: false }), "3090");
    assert_eq!(celda_como_str(&Celda::Entero(-5)), "-5");
    assert_eq!(celda_como_str(&t("  ab ")), "ab");
    assert_eq!(celda_como_str(&Celda::Logico(true)), "true");
    assert_eq!(celda_como_str(&Celda::Logico(false)), "false");
    assert_eq!(celda_como_str(&Celda::Vacia), "");
    assert_eq!(celda_como_str(&Celda::Otra), "");
}

#[test]
fn celdas_como_fecha() {
    assert_eq!(celda_como_fecha(&Celda::Decimal { truncado: 45000, menor_que_uno: false }), "2023-03-15");
    assert_eq!(celda_como_fecha(&Celda::Entero(1)), "1899-12-31");
    assert_eq!(celda_como_fecha(&Celda::Entero(0)), "");
    assert_eq!(celda_como_fecha(&Celda::Decimal { truncado: 0, menor_que_uno: true }), "");
    assert_eq!(celda_como_fecha(&t("  2024-01-05 10:00")), "2024-01-05");
    assert_eq!(celda_como_fecha(&t("   ")), "");
    assert_eq!(celda_como_fecha(&Celda::Logico(true)), "");
}

#[test]
fn repertorio_reemplazar_y_buscar() {
    let mut bd: BaseRepertorios = Tabla::nueva();
    reemplazar_repertorio(&mut bd, "3.090".to_string(), reg("3.090", "1", "", "", "", ""));
    assert_eq!(buscar_repertorio(&bd, "3.090"), Some(reg("3.090", "1", "", "", "", "")));
    assert_eq!(buscar_repertorio(&bd, "3090"), None);
    assert_eq!(buscar_repertorio_flexible(&bd, " 3090 "), Some(reg("3.090", "1", "", "", "", "")));
    assert_eq!(buscar_repertorio_flexible(&bd, "3.090"), Some(reg("3.090", "1", "", "", "", "")));
    assert_eq!(buscar_repertorio_flexible(&bd, "309"), None);
    reemplazar_repertorio(&mut bd, "3.090".to_string(), reg("3.090", "2", "", "", "", ""));
    assert_eq!(buscar_repertorio(&bd, "3.090"), Some(reg("3.090", "2", "", "", "", "")));
}

#[test]
fn hoja_preferida() {
    let n = |v: &[&str]| v.iter().map(|s| s.to_string()).collect::<Vec<String>>();
    assert_eq!(elegir_hoja(&n(&["Hoja1", "RESULTADO", "exportar"])), Some("exportar".to_string()));
    assert_eq!(elegir_hoja(&n(&["Hoja1", "Resultado"])), Some("Resultado".to_string()));
    assert_eq!(elegir_hoja(&n(&["Hoja1", "Hoja2"])), Some("Hoja1".to_string()));
    assert_eq!(elegir_hoja(&n(&[])), None);
}

#[test]
fn importar_formato_autofin() {
    let filas = vec![
        vec![t("OT"), t(""), t("Repertorio"), t("Fecha")],
        vec![
            t("OT1"),
            Celda::Vacia,
            t("3090"),
            Celda::Decimal { truncado: 45000, menor_que_uno: false },
            Celda::Vacia,
            t("Cliente A"),
            Celda::Vacia,
            t("Compraventa"),
            t("AUTOFIN\nJuan Perez"),
        ],
        vec![t("OT2"), Celda::Vacia, t("  ")],
        vec![t("OT3"), Celda::Vacia, t("3090"), t("2024-01-01")],
        vec![t("OT4"), Celda::Vacia, Celda::Entero(12)],
        vec![t("OT5")],
    ];
    assert!(!es_modelo_bd(&filas));
    let mut bd: BaseRepertorios = Tabla::nueva();
    let r = incorporar_filas(&mut bd, &filas);
    assert!(r.ok);
    assert_eq!(r.cargados, 2);
    assert!(r.errores.is_empty());
    assert!(r.error.is_none());
    assert_eq!(r.duplicados.len(), 1);
    assert_eq!(r.duplicados[0].numero, "3090");
    assert_eq!(
        r.duplicados[0].existente,
        reg("3090", "OT1", "2023-03-15", "Cliente A", "Compraventa", "Juan Perez")
    );
    assert_eq!(r.duplicados[0].entrante, reg("3090", "OT3", "2024-01-01", "", "", ""));
    assert_eq!(
        buscar_repertorio(&bd, "3090"),
        Some(reg("3090", "OT1", "2023-03-15", "Cliente A", "Compraventa", "Juan Perez"))
    );
    assert_eq!(buscar_repertorio(&bd, "12"), Some(reg("12", "OT4", "", "", "", "")));
    assert_eq!(bd.len(), 2);
}

#[test]
fn importar_formato_modelo() {
    let mut fila: Vec<Celda> = (0..13).map(|_| Celda::Vacia).collect();
    fila[1] = t("OT9");
    fila[2] = t("500");
    fila[3] = t("2024-02-02");
    fila[9] = t("11.111.111-1");
    fila[10] = t("Soto");
    fila[11] = t("");
    fila[12] = t("Ana");
    let filas = vec![
        vec![t("MODELO PARA BASE DE DATOS")],
        vec![Celda::Vacia, t(" OT "), t("REPERTORIO")],
        fila,
    ];
    assert!(es_modelo_bd(&filas));
    let mut bd: BaseRepertorios = Tabla::nueva();
    reemplazar_repertorio(&mut bd, "1".to_string(), reg("1", "", "", "", "", ""));
    let r = incorporar_filas(&mut bd, &filas);
    assert_eq!(r.cargados, 1);
    assert!(r.duplicados.is_empty());
    assert_eq!(
        buscar_repertorio(&bd, "500"),
        Some(reg("500", "OT9", "2024-02-02", "11.111.111-1", "", "Soto Ana"))
    );
    assert_eq!(buscar_repertorio(&bd, "1"), Some(reg("1", "", "", "", "", "")));
}
