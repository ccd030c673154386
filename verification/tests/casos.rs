use juan_vivi::casos::{
    agregar_caso, buscar_caso, buscar_caso_flexible, buscar_caso_interno, eliminar_caso,
    listar_casos, BaseCasos,
};
use juan_vivi::modelos::Caso;
use juan_vivi::tabla::Tabla;

fn caso(numero: &str, tipo: &str) -> Caso {
    Caso {
        numero: numero.to_string(),
        anho: "2024".to_string(),
        tipo_contrato: tipo.to_string(),
        fecha_dia: 5,
        fecha_mes: 3,
        fecha_anio: 2024,
    }
}

#[test]
fn agregar_luego_buscar() {
    let mut bd: BaseCasos = Tabla::nueva();
    agregar_caso(&mut bd, caso("3090", "COMPRAVENTA"));
    assert_eq!(buscar_caso(&bd, "3090"), Some(caso("3090", "COMPRAVENTA")));
    assert_eq!(buscar_caso(&bd, "3091"), None);
    agregar_caso(&mut bd, caso("3090", "MANDATO"));
    assert_eq!(buscar_caso(&bd, "3090"), Some(caso("3090", "MANDATO")));
    assert_eq!(bd.len(), 1);
}

#[test]
fn eliminar_luego_buscar() {
    let mut bd: BaseCasos = Tabla::nueva();
    agregar_caso(&mut bd, caso("10", "A"));
    agregar_caso(&mut bd, caso("20", "B"));
    assert!(eliminar_caso(&mut bd, "10"));
    assert!(!eliminar_caso(&mut bd, "10"));
    assert_eq!(buscar_caso(&bd, "10"), None);
    assert_eq!(buscar_caso(&bd, "20"), Some(caso("20", "B")));
}

#[test]
fn buscar_interno_recorta() {
    let mut bd: BaseCasos = Tabla::nueva();
    agregar_caso(&mut bd, caso("77", "A"));
    assert_eq!(buscar_caso_interno(&bd, "  77 \n"), Some(caso("77", "A")));
    assert_eq!(buscar_caso(&bd, " 77"), None);
}

#[test]
fn buscar_flexible_por_digitos() {
    let mut bd: BaseCasos = Tabla::nueva();
    agregar_caso(&mut bd, caso("3090", "A"));
    agregar_caso(&mut bd, caso("3.091", "B"));
    assert_eq!(buscar_caso_flexible(&bd, " 3090 "), Some(caso("3090", "A")));
    assert_eq!(buscar_caso_flexible(&bd, "3.090"), Some(caso("3090", "A")));
    assert_eq!(buscar_caso_flexible(&bd, "3091"), Some(caso("3.091", "B")));
    assert_eq!(buscar_caso_flexible(&bd, "4000"), None);
}

#[test]
fn listar_ordena_por_numero() {
    let mut bd: BaseCasos = Tabla::nueva();
    agregar_caso(&mut bd, caso("100", "A"));
    agregar_caso(&mut bd, caso("9", "B"));
    agregar_caso(&mut bd, caso("x", "C"));
    agregar_caso(&mut bd, caso("25", "D"));
    let lista = listar_casos(&bd);
    let numeros: Vec<&str> = lista.iter().map(|c| c.numero.as_str()).collect();
    assert_eq!(numeros, vec!["x", "9", "25", "100"]);
}
