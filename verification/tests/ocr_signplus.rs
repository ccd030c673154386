use juan_vivi::fechas::Instante;
use juan_vivi::licencia::{
    decodificar_contenido, estado_desde_campos, licencia_desde_contenido, resolver_licencia,
    EstadoLicencia,
};
use juan_vivi::ocr::{
    analizar_texto, extraer_protocolizado, extraer_repertorio, extraer_tipo_contrato,
    limpiar_titulo, normalizar_numero, separar_lineas,
};
use juan_vivi::signplus::{
    extraer_token, generar_cuerpo_cert, interpretar_respuesta, preparar_formulario,
    preparar_formulario_en,
};

const PAGINA: &str = "NOTARIA\nREPERTORIO N° 3.090 - 2024\nPROTOCOLIZADO N° 1.234\n\nPROTOCOLIZACION\nCAROLINA E. PINA CUEVAS\nnotario publico\nCompraventa de vehiculo\nCONTRATO DE COMPRAVENTA #\nEn Santiago de Chile";

#[test]
fn normalizar_corrige_ocr() {
    assert_eq!(normalizar_numero("3.O9l I"), "30911");
    assert_eq!(normalizar_numero("o.o"), "00");
    assert_eq!(normalizar_numero("abc"), "");
    let once = normalizar_numero(" 1.2O4 ");
    assert_eq!(normalizar_numero(&once), once);
}

#[test]
fn lineas_del_texto() {
    let l = separar_lineas("a\r\nb\n\nc");
    let l: Vec<String> = l.iter().map(|v| v.iter().collect()).collect();
    assert_eq!(l, vec!["a", "b", "", "c"]);
    assert!(separar_lineas("").is_empty());
}

#[test]
fn repertorio_arriba() {
    assert_eq!(extraer_repertorio(PAGINA), (Some("3090".to_string()), Some("2024".to_string())));
    assert_eq!(extraer_repertorio("repertorion°3090"), (Some("3090".to_string()), None));
    assert_eq!(extraer_repertorio("REPERTORIO ..."), (None, None));
    assert_eq!(extraer_repertorio("sin nada"), (None, None));
    let mut abajo = String::new();
    for _ in 0..12 {
        abajo.push_str("linea\n");
    }
    abajo.push_str("REPERTORIO 55");
    assert_eq!(extraer_repertorio(&abajo), (None, None));
}

#[test]
fn protocolizado() {
    assert_eq!(extraer_protocolizado(PAGINA), Some("1234".to_string()));
    assert_eq!(extraer_protocolizado("protocolizado n 7"), Some("7".to_string()));
    assert_eq!(extraer_protocolizado("nada"), None);
}

#[test]
fn titulo_limpio() {
    assert_eq!(limpiar_titulo(" °ABC| "), "ABC");
    assert_eq!(limpiar_titulo("#@"), "");
}

#[test]
fn tipo_de_contrato() {
    assert_eq!(extraer_tipo_contrato(PAGINA), Some("CONTRATO DE COMPRAVENTA".to_string()));
    assert_eq!(extraer_tipo_contrato("PROTOCOLIZACION\nAUTOFIN\nMANDATO ESPECIAL"), None);
    assert_eq!(extraer_tipo_contrato("MANDATO ESPECIAL"), None);
    assert_eq!(extraer_tipo_contrato("PROTOCOLIZACION\nABC D\nMANDATO ESPECIAL"), Some("MANDATO ESPECIAL".to_string()));
}

#[test]
fn analizar_pagina() {
    let d = analizar_texto(PAGINA);
    assert_eq!(d.numero, Some("3090".to_string()));
    assert_eq!(d.anho, Some("2024".to_string()));
    assert_eq!(d.protocolizado, Some("1234".to_string()));
    assert_eq!(d.tipo_contrato, Some("CONTRATO DE COMPRAVENTA".to_string()));
}

#[test]
fn cuerpo_de_certificado() {
    assert_eq!(
        generar_cuerpo_cert("COMPRAVENTA", 5, 3, 2024),
        "Certifico que el presente documento electrónico es copia fiel e íntegra de COMPRAVENTA otorgado el 5 de marzo de 2024 reproducido en las siguientes páginas."
    );
    assert!(generar_cuerpo_cert("X", 1, 13, 2020).contains("1 de ? de 2020"));
    assert!(generar_cuerpo_cert("X", 1, 0, 2020).contains("1 de enero de 2020"));
    assert!(generar_cuerpo_cert("X", 31, 12, 1999).contains("31 de diciembre de 1999"));
}

#[test]
fn token_de_login() {
    let html = "<script>localStorage.setItem('token',  'abc.def')</script>";
    assert_eq!(extraer_token(html), Some("abc.def".to_string()));
    assert_eq!(extraer_token("<html></html>"), None);
}

#[test]
fn formulario() {
    let hoy = Instante { anio: 2025, mes: 1, dia: 9, hora: 10, minuto: 0 };
    let f = preparar_formulario_en("3090", "2024", "MANDATO", 5, 3, 2024, &hoy);
    assert_eq!(f.repertorio, "3090");
    assert_eq!(f.anho, 2024);
    assert_eq!(f.tipo_contrato, "MANDATO");
    assert_eq!(f.fecha_escritura, "2024-03-05");
    assert_eq!(f.fecha_emision, "2025-01-09");
    assert_eq!(f.cuerpo_cert, generar_cuerpo_cert("MANDATO", 5, 3, 2024));
    assert_eq!(preparar_formulario_en("1", "x24", "M", 1, 1, 999, &hoy).anho, 0);
    assert_eq!(preparar_formulario_en("1", "-7", "M", 1, 1, 999, &hoy).fecha_escritura, "0999-01-01");
    assert_eq!(preparar_formulario_en("1", "-7", "M", 1, 1, 999, &hoy).anho, -7);
    assert_eq!(preparar_formulario("1", "+8", "M", 1, 1, 2000).anho, 8);
}

#[test]
fn respuesta_de_signplus() {
    assert_eq!(interpretar_respuesta(Some(true), None), Ok(()));
    assert_eq!(
        interpretar_respuesta(Some(false), Some("duplicado".to_string())),
        Err("SIGN+: duplicado".to_string())
    );
    assert_eq!(interpretar_respuesta(None, None), Err("SIGN+: Error desconocido".to_string()));
}

#[test]
fn licencia_decodificada() {
    assert_eq!(
        decodificar_contenido("eyJhY3Rpdm8iOmZh\nbHNlfQ==\n"),
        Some("{\"activo\":false}".to_string())
    );
    assert_eq!(decodificar_contenido("%%%"), None);
    assert_eq!(decodificar_contenido("/w=="), None);
}

#[test]
fn licencia_campos() {
    let e = estado_desde_campos(Some(false), Some("vencida".to_string()));
    assert_eq!(e, EstadoLicencia { activo: false, mensaje: "vencida".to_string() });
    assert_eq!(estado_desde_campos(None, None), EstadoLicencia { activo: true, mensaje: String::new() });
    assert_eq!(resolver_licencia(None), EstadoLicencia::permisivo());
    assert_eq!(resolver_licencia(Some(e)), EstadoLicencia { activo: false, mensaje: "vencida".to_string() });
}

#[test]
fn licencia_desde_el_contenido() {
    // {"activo":false,"mensaje":"vencida"}
    assert_eq!(
        licencia_desde_contenido("eyJhY3Rpdm8iOmZhbHNlLCJtZW5zYWplIjoidmVuY2lkYSJ9\n"),
        EstadoLicencia { activo: false, mensaje: "vencida".to_string() }
    );
    // {"activo":false}
    assert_eq!(
        licencia_desde_contenido("eyJhY3Rpdm8iOmZhbHNlfQ=="),
        EstadoLicencia { activo: false, mensaje: String::new() }
    );
    // {}
    assert_eq!(licencia_desde_contenido("e30="), EstadoLicencia::permisivo());
    // "no es json"
    assert_eq!(licencia_desde_contenido("bm8gZXMganNvbg=="), EstadoLicencia::permisivo());
    assert_eq!(licencia_desde_contenido("%%%"), EstadoLicencia::permisivo());
}
