use juan_vivi::impresion::{
    clasificar_entrada, clave_archivo, emparejar, entrada_a_extraer, guion_impresion,
    nombres_impresoras, resultado_zip, ArchivoExtraido, Carpeta, GUION_ANTES_DE_RUTA, GUION_FIN,
    GUION_INICIO, GUION_TRAS_IMPRESORA, GUION_TRAS_RUTA,
};
use juan_vivi::tabla::Tabla;

fn extraido(nombre: &str, dir: &str) -> ArchivoExtraido {
    ArchivoExtraido { nombre: nombre.to_string(), ruta: format!("{}/{}", dir, nombre) }
}

#[test]
fn clasificacion_de_entradas() {
    assert_eq!(
        clasificar_entrada("notaria/13364-2026.PDF"),
        Some((Carpeta::Notaria, "13364-2026.PDF".to_string()))
    );
    assert_eq!(
        clasificar_entrada("firmados/sub/9-2025.pdf"),
        Some((Carpeta::Firmados, "9-2025.pdf".to_string()))
    );
    assert_eq!(clasificar_entrada("otros/1.pdf"), None);
    assert_eq!(clasificar_entrada("notaria/leeme.txt"), None);
    assert_eq!(clasificar_entrada("notaria/"), None);
    assert_eq!(clave_archivo("AbC.PDF"), "abc.pdf");
}

#[test]
fn extraccion_sin_repetidos() {
    let mut notaria: Tabla<ArchivoExtraido> = Tabla::nueva();
    let firmados: Tabla<ArchivoExtraido> = Tabla::nueva();
    let d = entrada_a_extraer(&notaria, &firmados, "notaria/A-1.pdf");
    assert_eq!(d, Some((Carpeta::Notaria, "A-1.pdf".to_string(), "a-1.pdf".to_string())));
    notaria.insertar("a-1.pdf".to_string(), extraido("A-1.pdf", "/t/notaria"));
    assert_eq!(entrada_a_extraer(&notaria, &firmados, "notaria/A-1.pdf"), None);
    assert_eq!(entrada_a_extraer(&notaria, &firmados, "notaria/otra/a-1.PDF"), None);
    assert_eq!(
        entrada_a_extraer(&notaria, &firmados, "firmados/A-1.pdf"),
        Some((Carpeta::Firmados, "A-1.pdf".to_string(), "a-1.pdf".to_string()))
    );
    assert_eq!(entrada_a_extraer(&notaria, &firmados, "raiz.pdf"), None);
}

#[test]
fn pares_ordenados() {
    let mut notaria: Tabla<ArchivoExtraido> = Tabla::nueva();
    let mut firmados: Tabla<ArchivoExtraido> = Tabla::nueva();
    for n in ["13364-2026.pdf", "9-2025.pdf", "solo-notaria.pdf", "x.pdf"] {
        notaria.insertar(clave_archivo(n), extraido(n, "/t/notaria"));
    }
    for n in ["9-2025.PDF", "13364-2026.pdf", "x.pdf", "solo-firmado.pdf"] {
        firmados.insertar(clave_archivo(n), extraido(n, "/t/firmados"));
    }
    let pares = emparejar(&notaria, &firmados);
    let nombres: Vec<&str> = pares.iter().map(|p| p.nombre.as_str()).collect();
    assert_eq!(nombres, vec!["x", "9-2025", "13364-2026"]);
    assert_eq!(pares[1].notaria, "/t/notaria/9-2025.pdf");
    assert_eq!(pares[1].firmados, "/t/firmados/9-2025.PDF");
    let r = resultado_zip(pares);
    assert_eq!(r.total, 3);
    assert_eq!(r.pares.len(), 3);
}

#[test]
fn impresoras_de_la_salida() {
    assert_eq!(
        nombres_impresoras("  HP LaserJet \r\n\r\nMicrosoft Print to PDF\n   \n"),
        vec!["HP LaserJet".to_string(), "Microsoft Print to PDF".to_string()]
    );
    assert!(nombres_impresoras("").is_empty());
}

#[test]
fn guion_de_impresion() {
    let g = guion_impresion("C:\\tmp\\o'neil.pdf", "HP \"Oficina\" d'Ana");
    let imp = "HP Oficina d''Ana";
    let esperado = format!(
        "{}{}{}{}{}{}{}{}{}",
        GUION_INICIO,
        imp,
        GUION_TRAS_IMPRESORA,
        imp,
        GUION_ANTES_DE_RUTA,
        "C:\\tmp\\o''neil.pdf",
        GUION_TRAS_RUTA,
        imp,
        GUION_FIN
    );
    assert_eq!(g, esperado);
    assert!(g.contains("WHERE Name='HP Oficina d''Ana'"));
    assert!(g.contains("[Shell]::ShellExecute([IntPtr]::Zero, 'print', 'C:\\tmp\\o''neil.pdf', '', '', 0)"));
}
