use juan_vivi::fechas::{escribir_fecha, fecha_desde_serial, Instante};
use juan_vivi::lector::{es_fila_vacia, filas_de_hoja, leer_multiples, str_o_none, str_req};
use juan_vivi::modelos::{Celda, EstadoPlanilla, FilaEntrada, FilaSalida};
use juan_vivi::planilla::{
    cargar_excel, celdas_planilla, comprobar_generacion, extraer_numero_sp, fila_a_columnas,
    grupos_planilla, nombre_planilla, nombre_planilla_en, numero_sp_de_nombre,
    numero_sp_de_nombres,
};
use juan_vivi::transformador::transformar_fila;

fn t(s: &str) -> Celda {
    Celda::Texto(s.to_string())
}

fn fila_hoja(num: Celda, nombre: &str, rut: &str, tipo: &str) -> Vec<Celda> {
    let mut f: Vec<Celda> = (0..11).map(|_| Celda::Vacia).collect();
    f[0] = num;
    f[1] = t(nombre);
    f[2] = t(rut);
    f[5] = Celda::Entero(777);
    f[6] = t(" AB12 ");
    f[10] = t(tipo);
    f
}

fn entrada(nombre: &str, rut: &str, num: usize) -> FilaEntrada {
    FilaEntrada {
        numero: 1,
        nombre: nombre.to_string(),
        rut: rut.to_string(),
        nombre_para: None,
        rut_para: String::new(),
        operacion: String::new(),
        patente: String::new(),
        tipo: String::new(),
        num_fila_excel: num,
    }
}

#[test]
fn celdas_opcionales() {
    assert_eq!(str_o_none(&t("  x ")), Some("x".to_string()));
    assert_eq!(str_o_none(&t("   ")), None);
    assert_eq!(str_o_none(&Celda::Decimal { truncado: 7, menor_que_uno: false }), Some("7".to_string()));
    assert_eq!(str_o_none(&Celda::Entero(-3)), Some("-3".to_string()));
    assert_eq!(str_o_none(&Celda::Logico(false)), Some("false".to_string()));
    assert_eq!(str_o_none(&Celda::Vacia), None);
    assert_eq!(str_o_none(&Celda::Otra), None);
    assert_eq!(str_req(&Celda::Vacia), "");
    assert_eq!(str_req(&t(" y")), "y");
}

#[test]
fn filas_vacias() {
    assert!(es_fila_vacia(&vec![Celda::Vacia, Celda::Vacia]));
    assert!(es_fila_vacia(&vec![]));
    assert!(!es_fila_vacia(&vec![Celda::Vacia, t("")]));
}

#[test]
fn hoja_angosta_es_error() {
    let r = filas_de_hoja(10, &vec![]);
    assert_eq!(r, Err("El archivo tiene 10 columnas; se requieren al menos 11".to_string()));
}

#[test]
fn hoja_leida() {
    let filas = vec![
        vec![t("N"), t("NOMBRE")],
        fila_hoja(Celda::Decimal { truncado: 5, menor_que_uno: false }, " ana ", "1-9", "COMUNIDAD"),
        (0..11).map(|_| Celda::Vacia).collect(),
        fila_hoja(t("x"), "luis", "2-7", ""),
        vec![Celda::Entero(9)],
    ];
    let r = filas_de_hoja(11, &filas).unwrap();
    assert_eq!(r.len(), 3);
    assert_eq!(r[0].numero, 5);
    assert_eq!(r[0].nombre, "ana");
    assert_eq!(r[0].rut, "1-9");
    assert_eq!(r[0].nombre_para, None);
    assert_eq!(r[0].rut_para, "");
    assert_eq!(r[0].operacion, "777");
    assert_eq!(r[0].patente, "AB12");
    assert_eq!(r[0].tipo, "COMUNIDAD");
    assert_eq!(r[0].num_fila_excel, 2);
    assert_eq!(r[1].numero, 0);
    assert_eq!(r[1].num_fila_excel, 4);
    assert_eq!(r[2].numero, 9);
    assert_eq!(r[2].nombre, "");
    assert_eq!(r[2].num_fila_excel, 5);
}

#[test]
fn varias_lecturas() {
    let rutas = vec!["a.xlsx".to_string(), "b.xlsx".to_string(), "c.xlsx".to_string()];
    let lecturas = vec![
        Ok(vec![entrada("A", "1", 2)]),
        Err("no existe".to_string()),
        Ok(vec![entrada("B", "2", 2), entrada("C", "3", 3)]),
    ];
    let (todas, errores) = leer_multiples(&rutas, lecturas);
    assert_eq!(todas.len(), 3);
    assert_eq!(todas[0].nombre, "A");
    assert_eq!(todas[2].nombre, "C");
    assert_eq!(errores, vec!["b.xlsx: no existe".to_string()]);
}

#[test]
fn numero_sp_sin_fechas() {
    assert_eq!(numero_sp_de_nombre("SP 123 01-02-2024"), Some("123".to_string()));
    assert_eq!(numero_sp_de_nombre("2024/01/15 planilla 456"), Some("456".to_string()));
    assert_eq!(numero_sp_de_nombre("05-06-2023"), None);
    assert_eq!(numero_sp_de_nombre("sin numero"), None);
    let nombres = vec!["SP 12".to_string(), "nada".to_string(), "otro 34 x 56".to_string()];
    assert_eq!(numero_sp_de_nombres(&nombres), "12_34");
    assert_eq!(numero_sp_de_nombres(&vec![]), "");
}

#[test]
fn numero_sp_de_rutas() {
    let rutas = vec!["dir/SP 12 01-01-2024.xlsx".to_string(), "otra/SP_99.xlsx".to_string()];
    assert_eq!(extraer_numero_sp(&rutas), "12_99");
}

#[test]
fn nombre_de_planilla() {
    let t = Instante { anio: 2024, mes: 3, dia: 7, hora: 9, minuto: 5 };
    assert_eq!(nombre_planilla_en("12_34", &t), "Repertorios Masivo SP 12_34.xlsx");
    assert_eq!(nombre_planilla_en("", &t), "planilla_masivos_2024-03-07_09-05.xlsx");
    assert_eq!(nombre_planilla("7"), "Repertorios Masivo SP 7.xlsx");
    assert!(nombre_planilla("").starts_with("planilla_masivos_"));
}

#[test]
fn fechas_escritas() {
    assert_eq!(escribir_fecha(2024, 3, 7), "2024-03-07");
    assert_eq!(escribir_fecha(999, 12, 31), "0999-12-31");
    assert_eq!(escribir_fecha(-5, 1, 1), "-0005-01-01");
    assert_eq!(escribir_fecha(12345, 1, 1), "+12345-01-01");
    assert_eq!(fecha_desde_serial(45000), "2023-03-15");
    assert_eq!(fecha_desde_serial(1), "1899-12-31");
    assert_eq!(fecha_desde_serial(0), "1899-12-30");
    assert_eq!(fecha_desde_serial(100_000_000_000), "");
}

#[test]
fn columnas_de_fila() {
    let (s, _) = transformar_fila(&entrada("ana", "1-9", 2));
    let s: FilaSalida = s.unwrap();
    let c = fila_a_columnas(&s);
    assert_eq!(c.len(), 21);
    assert_eq!(c[0], "76139506-8");
    assert_eq!(c[1], "AUTOFIN S.A.");
    assert_eq!(c[2], "");
    assert_eq!(c[4], "1-9");
    assert_eq!(c[5], "ANA");
    assert_eq!(c[20], "");
}

#[test]
fn cargar_sin_archivos() {
    let mut estado = EstadoPlanilla::default();
    let r = cargar_excel(&vec![], vec![], &mut estado);
    assert!(!r.ok);
    assert_eq!(r.error, Some("No se proporcionaron archivos".to_string()));
    assert!(estado.filas.is_empty());
}

#[test]
fn cargar_con_error_total() {
    let mut estado = EstadoPlanilla::default();
    let rutas = vec!["x/SP 5.xlsx".to_string(), "y.xlsx".to_string()];
    let r = cargar_excel(&rutas, vec![Err("e1".to_string()), Err("e2".to_string())], &mut estado);
    assert!(!r.ok);
    assert_eq!(r.nombre, "SP 5.xlsx");
    assert_eq!(r.error, Some("x/SP 5.xlsx: e1; y.xlsx: e2".to_string()));
    assert!(estado.filas.is_empty());
    assert_eq!(estado.prefijo_sp, "");
}

#[test]
fn cargar_y_generar() {
    let mut estado = EstadoPlanilla::default();
    assert_eq!(comprobar_generacion(&estado, "out/p.xlsx"), Err("No hay datos cargados".to_string()));
    let rutas = vec!["x/SP 5.xlsx".to_string(), "y 8.xlsx".to_string()];
    let lecturas = vec![
        Ok(vec![entrada("ana", "1-9", 2), entrada("", "", 3)]),
        Err("roto".to_string()),
    ];
    let r = cargar_excel(&rutas, lecturas, &mut estado);
    assert!(r.ok);
    assert_eq!(r.nombre, "SP 5.xlsx");
    assert_eq!(r.filas.len(), 1);
    assert_eq!(r.filas[0].n, "1-9");
    assert_eq!(r.filas[0].nombre, "ANA");
    assert_eq!(r.filas[0].rut, "1-9");
    assert_eq!(
        r.avisos,
        vec!["y 8.xlsx: roto".to_string(), "Fila 3: NOMBRE o RUT vacío — omitida".to_string()]
    );
    assert_eq!(estado.filas.len(), 1);
    assert_eq!(estado.prefijo_sp, "5_8");
    assert_eq!(comprobar_generacion(&estado, "out/p.xlsx"), Ok("p.xlsx".to_string()));
}

#[test]
fn cargar_nombres_simples() {
    let mut estado = EstadoPlanilla::default();
    let rutas = vec!["SP 5 01-02-2024.xlsx".to_string(), "otra 7.XLSX".to_string()];
    let r = cargar_excel(&rutas, vec![Ok(vec![entrada("a", "1", 2)]), Ok(vec![])], &mut estado);
    assert!(r.ok);
    assert_eq!(r.nombre, "SP 5 01-02-2024.xlsx");
    assert_eq!(estado.prefijo_sp, "5_7");
    assert_eq!(comprobar_generacion(&estado, "salida.xlsx"), Ok("salida.xlsx".to_string()));
}

#[test]
fn celdas_y_grupos() {
    let g = grupos_planilla();
    assert_eq!(
        g,
        vec![
            (0, 3, "Compareciente 1 / Vendedor".to_string()),
            (4, 7, "Compareciente 2 / Comprador".to_string()),
            (8, 19, "Vehículo".to_string()),
            (20, 20, "Datos OT".to_string()),
        ]
    );
    let (s, _) = transformar_fila(&entrada("ana", "1-9", 2));
    let filas = vec![s.unwrap()];
    let c = celdas_planilla(&filas);
    assert_eq!(c.len(), 42);
    assert_eq!(c[0], (1, 0, "RUT".to_string()));
    assert_eq!(c[8], (1, 8, "Tasación Fiscal".to_string()));
    assert_eq!(c[20], (1, 20, "Código Operación".to_string()));
    assert_eq!(c[21], (2, 0, "76139506-8".to_string()));
    assert_eq!(c[26], (2, 5, "ANA".to_string()));
    assert_eq!(c[41], (2, 20, String::new()));
    assert_eq!(celdas_planilla(&vec![]).len(), 21);
}

#[test]
fn cargar_con_carpetas() {
    let mut estado = EstadoPlanilla::default();
    let rutas = vec!["/datos/SP 31.xlsx".to_string(), "./b/SP_32 05-05-2025.xlsx".to_string()];
    let r = cargar_excel(&rutas, vec![Ok(vec![entrada("a", "1", 2)]), Ok(vec![])], &mut estado);
    assert_eq!(r.nombre, "SP 31.xlsx");
    assert_eq!(estado.prefijo_sp, "31_32");
}
