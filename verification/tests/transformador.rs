use juan_vivi::modelos::{FilaEntrada, FilaSalida};
use juan_vivi::transformador::{
    es_vacia, limpiar_nombre, limpiar_rut, primer_nombre, primer_rut, transformar_fila,
    transformar_lote, AUTOFIN_NOMBRE, AUTOFIN_RUT,
};

fn fila(
    nombre: &str,
    rut: &str,
    nombre_para: Option<&str>,
    rut_para: &str,
    operacion: &str,
    patente: &str,
    tipo: &str,
    num: usize,
) -> FilaEntrada {
    FilaEntrada {
        numero: num as i64,
        nombre: nombre.to_string(),
        rut: rut.to_string(),
        nombre_para: nombre_para.map(|s| s.to_string()),
        rut_para: rut_para.to_string(),
        operacion: operacion.to_string(),
        patente: patente.to_string(),
        tipo: tipo.to_string(),
        num_fila_excel: num,
    }
}

#[test]
fn limpiar_rut_quita_espacios_y_mayusculas() {
    assert_eq!(limpiar_rut(" 12.345.678-k\u{a0}\t"), "12.345.678-K");
    assert_eq!(limpiar_rut("1 2 3"), "123");
    assert_eq!(limpiar_rut(""), "");
}

#[test]
fn limpiar_nombre_colapsa_y_recorta() {
    assert_eq!(limpiar_nombre("  juan\u{a0}\u{a0}pérez   soto "), "JUAN PÉREZ SOTO");
    assert_eq!(limpiar_nombre("ana"), "ANA");
    assert_eq!(limpiar_nombre("   "), "");
}

#[test]
fn primer_rut_toma_el_primero() {
    assert_eq!(primer_rut(" 11.111.111-1 / 22.222.222-2"), "11.111.111-1");
    assert_eq!(primer_rut("9.999.999-9"), "9.999.999-9");
    assert_eq!(primer_rut(""), "");
}

#[test]
fn primer_nombre_agrega_otro() {
    assert_eq!(primer_nombre("JUAN PEREZ Y MARIA SOTO"), "JUAN PEREZ Y OTRO");
    assert_eq!(primer_nombre(" ANA  Y B Y C"), "ANA Y OTRO");
    assert_eq!(primer_nombre("JUAN"), "JUAN");
    assert_eq!(primer_nombre("MARIA YAÑEZ"), "MARIA YAÑEZ");
}

#[test]
fn es_vacia_solo_blancos() {
    assert!(es_vacia(""));
    assert!(es_vacia(" \t\n"));
    assert!(!es_vacia(" a "));
}

#[test]
fn transformar_fila_normal() {
    let f = fila(" juan  perez ", "12.345.678-k", None, "", " 555 ", "ABCD12", "", 4);
    let (salida, aviso) = transformar_fila(&f);
    assert!(aviso.is_none());
    let s: FilaSalida = salida.unwrap();
    assert_eq!(s.c1_rut, AUTOFIN_RUT);
    assert_eq!(s.c1_rut, "76139506-8");
    assert_eq!(s.c1_apellido_paterno, AUTOFIN_NOMBRE);
    assert_eq!(s.c1_apellido_paterno, "AUTOFIN S.A.");
    assert_eq!(s.c2_rut, "12.345.678-K");
    assert_eq!(s.c2_apellido_paterno, "JUAN PEREZ");
    assert_eq!(s.patente, Some("ABCD12".to_string()));
    assert_eq!(s.codigo_operacion, Some(" 555 ".to_string()));
    assert_eq!(s.c1_apellido_materno, None);
    assert_eq!(s.vin, None);
}

#[test]
fn transformar_fila_normal_vacia() {
    let f = fila("  ", "1-9", None, "", "", "", "OTRO", 3);
    let (salida, aviso) = transformar_fila(&f);
    assert!(salida.is_none());
    assert_eq!(aviso.unwrap(), "Fila 3: NOMBRE o RUT vacío — omitida");
}

#[test]
fn transformar_fila_compra_para() {
    let f = fila("X", "1-1", Some(" pedro\u{a0}soto "), " 2-2 ", "", "  ", " compra para ", 9);
    let (salida, aviso) = transformar_fila(&f);
    assert!(aviso.is_none());
    let s = salida.unwrap();
    assert_eq!(s.c2_rut, "2-2");
    assert_eq!(s.c2_apellido_paterno, "PEDRO SOTO");
    assert_eq!(s.patente, None);
    assert_eq!(s.codigo_operacion, None);
}

#[test]
fn transformar_fila_compra_para_incompleta() {
    let f = fila("X", "1-1", None, "2-2", "", "", "COMPRA PARA", 7);
    let (salida, aviso) = transformar_fila(&f);
    assert!(salida.is_none());
    assert_eq!(aviso.unwrap(), "Fila 7: COMPRA PARA sin NOMBRE_PARA o RUT_PARA — omitida");
}

#[test]
fn transformar_fila_comunidad() {
    let f = fila("ana soto y luis rojas", "5-5/6-6", None, "", "", "", "Comunidad", 2);
    let (salida, aviso) = transformar_fila(&f);
    assert!(aviso.is_none());
    let s = salida.unwrap();
    assert_eq!(s.c2_rut, "5-5");
    assert_eq!(s.c2_apellido_paterno, "ANA SOTO Y LUIS ROJAS");
    let f2 = fila("ANA SOTO Y LUIS ROJAS", "", None, "", "", "", "COMUNIDAD", 2);
    let (salida2, aviso2) = transformar_fila(&f2);
    assert!(aviso2.is_none());
    let s2 = salida2.unwrap();
    assert_eq!(s2.c2_rut, "");
    assert_eq!(s2.c2_apellido_paterno, "ANA SOTO Y OTRO");
}

#[test]
fn transformar_lote_reparte() {
    let filas = vec![
        fila("A B", "1-1", None, "", "", "", "", 2),
        fila("", "", None, "", "", "", "", 3),
        fila("C", "3-3", None, "", "", "", "COMPRA PARA", 4),
        fila("D E", "4-4", None, "", "", "", "", 5),
    ];
    let (salidas, avisos) = transformar_lote(&filas);
    assert_eq!(salidas.len(), 2);
    assert_eq!(avisos.len(), 2);
    assert_eq!(salidas[0].c2_apellido_paterno, "A B");
    assert_eq!(salidas[1].c2_apellido_paterno, "D E");
    assert_eq!(avisos[0], "Fila 3: NOMBRE o RUT vacío — omitida");
    assert_eq!(avisos[1], "Fila 4: COMPRA PARA sin NOMBRE_PARA o RUT_PARA — omitida");
    for s in &salidas {
        assert_eq!(s.c1_rut, "76139506-8");
    }
}

#[test]
fn transformar_lote_vacio() {
    let (salidas, avisos) = transformar_lote(&[]);
    assert!(salidas.is_empty());
    assert!(avisos.is_empty());
}

#[test]
fn transformar_lote_concatena() {
    let a = vec![fila("A", "1-1", None, "", "", "", "", 2), fila("", "", None, "", "", "", "", 3)];
    let b = vec![fila("B", "2-2", None, "", "", "", "COMUNIDAD", 4)];
    let (sa, wa) = transformar_lote(&a);
    let (sb, wb) = transformar_lote(&b);
    let todo: Vec<FilaEntrada> = a.iter().chain(b.iter()).cloned().collect();
    let (s, w) = transformar_lote(&todo);
    let mut s_esperadas = sa.clone();
    s_esperadas.extend(sb);
    let mut w_esperados = wa.clone();
    w_esperados.extend(wb);
    assert_eq!(s, s_esperadas);
    assert_eq!(w, w_esperados);
}

#[test]
fn transformar_fila_comunidad_vacia() {
    let f = fila("  ", "\u{a0}", None, "", "", "", "COMUNIDAD", 6);
    let (salida, aviso) = transformar_fila(&f);
    assert!(salida.is_none());
    assert_eq!(aviso.unwrap(), "Fila 6: NOMBRE o RUT vacío — omitida");
    let solo_rut = fila("", "7-7", None, "", "", "", "COMUNIDAD", 7);
    let (s, a) = transformar_fila(&solo_rut);
    assert!(a.is_none());
    assert_eq!(s.unwrap().c2_rut, "7-7");
}
