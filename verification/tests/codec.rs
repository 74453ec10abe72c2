//! Pruebas del códec textual: símbolos, números y serialización.

use tp_individual::direccion::Direccion;
use tp_individual::objeto::Objeto;
use tp_individual::simbolos::{
    construir_tablero, convertir_simbolos, parse_coordenadas, parsear_i32, separar_linea,
    tablero_a_texto,
};
use tp_individual::tablero::Tablero;

#[test]
fn test_parse_coordenadas_valid() {
    // Prueba con una cadena que se puede analizar correctamente
    assert_eq!(parse_coordenadas("42", "X"), Ok(42));
}

#[test]
fn test_parse_coordenadas_invalid() {
    // Prueba con una cadena no válida
    assert_eq!(
        parse_coordenadas("no_valido", "Y"),
        Err("ERROR: La coordenada Y debe ser un número válido.".to_string())
    );
}

#[test]
fn test_convertir_simbolos() {
    // Prueba para convertir un símbolo en un Objeto válido.
    assert_eq!(
        convertir_simbolos("F2"),
        Ok(Objeto::Enemigo(2, Vec::new()))
    );
    assert_eq!(convertir_simbolos("R"), Ok(Objeto::Roca));
    assert_eq!(convertir_simbolos("W"), Ok(Objeto::Pared));

    // Prueba para convertir un símbolo en una Bomba y Bomba de Traspaso.
    assert_eq!(convertir_simbolos("B2"), Ok(Objeto::Bomba(false, 2)));
    assert_eq!(convertir_simbolos("S1"), Ok(Objeto::Bomba(true, 1)));

    // Prueba para convertir un símbolo en un Desvío.
    assert_eq!(
        convertir_simbolos("DU"),
        Ok(Objeto::Desvio(Direccion::Arriba))
    );
    assert_eq!(
        convertir_simbolos("DL"),
        Ok(Objeto::Desvio(Direccion::Izquierda))
    );

    // Prueba para un símbolo no válido.
    assert_eq!(
        convertir_simbolos("X"),
        Err("Símbolo no válido en el laberinto")
    );

    // Prueba para valores inválidos de enemigo.
    assert_eq!(
        convertir_simbolos("F0"),
        Err("Valor de vida de enemigo no válido")
    );
    assert_eq!(
        convertir_simbolos("F5"),
        Err("Valor de vida de enemigo no válido")
    );

    // Prueba para valores inválidos de alcance de bomba.
    assert_eq!(
        convertir_simbolos("B0"),
        Err("Valor de alcance de bomba no válido")
    );

    // Prueba para valores inválidos de alcance de bomba de traspaso.
    assert_eq!(
        convertir_simbolos("S0"),
        Err("Valor de alcance de bomba de traspaso no válido")
    );
}

#[test]
fn test_convertir_simbolos_bordes() {
    assert_eq!(convertir_simbolos(""), Err("El símbolo está vacío"));
    assert_eq!(convertir_simbolos("_"), Ok(Objeto::Vacio));
    assert_eq!(
        convertir_simbolos("DD"),
        Ok(Objeto::Desvio(Direccion::Abajo))
    );
    assert_eq!(
        convertir_simbolos("DR"),
        Ok(Objeto::Desvio(Direccion::Derecha))
    );
    assert_eq!(
        convertir_simbolos("DX"),
        Err("Dirección de desvío no válida")
    );
    assert_eq!(
        convertir_simbolos("DUU"),
        Err("Dirección de desvío no válida")
    );
    assert_eq!(convertir_simbolos("B10"), Ok(Objeto::Bomba(false, 10)));
    assert_eq!(
        convertir_simbolos("B"),
        Err("No se pudo parsear el valor de alcance de bomba")
    );
    assert_eq!(
        convertir_simbolos("Bx"),
        Err("No se pudo parsear el valor de alcance de bomba")
    );
    assert_eq!(
        convertir_simbolos("B-3"),
        Err("Valor de alcance de bomba no válido")
    );
    assert_eq!(
        convertir_simbolos("S"),
        Err("No se pudo parsear el valor de alcance de bomba de traspaso")
    );
    // El enemigo toma su vida del último carácter.
    assert_eq!(convertir_simbolos("F"), Err("No se pudo obtener un valor de vida válido"));
    assert_eq!(convertir_simbolos("F12"), Ok(Objeto::Enemigo(2, Vec::new())));
}

#[test]
fn test_parsear_enteros() {
    assert_eq!(parsear_i32("0"), Some(0));
    assert_eq!(parsear_i32("+7"), Some(7));
    assert_eq!(parsear_i32("-15"), Some(-15));
    assert_eq!(parsear_i32("2147483647"), Some(2147483647));
    assert_eq!(parsear_i32("-2147483648"), Some(-2147483648));
    assert_eq!(parsear_i32("2147483648"), None);
    assert_eq!(parsear_i32("-2147483649"), None);
    assert_eq!(parsear_i32("99999999999999999999"), None);
    assert_eq!(parsear_i32(""), None);
    assert_eq!(parsear_i32("-"), None);
    assert_eq!(parsear_i32("+"), None);
    assert_eq!(parsear_i32("12a"), None);
    assert_eq!(parsear_i32(" 5"), None);
}

#[test]
fn test_separar_linea() {
    assert_eq!(
        separar_linea("B1 R B1 "),
        vec!["B1".to_string(), "R".to_string(), "B1".to_string()]
    );
    assert_eq!(separar_linea("   "), Vec::<String>::new());
    assert_eq!(
        separar_linea("  F2\tW "),
        vec!["F2".to_string(), "W".to_string()]
    );
}

#[test]
fn test_crear_tablero() {
    // Un tablero válido de 2x2.
    let lineas = vec!["F2 R".to_string(), "W DU".to_string()];
    let resultado = construir_tablero(&lineas);
    assert!(resultado.is_ok(), "La creación del tablero falló");
    if let Ok(tablero) = resultado {
        assert_eq!(tablero.tamano, 2, "El tamaño del tablero es incorrecto");
        assert_eq!(tablero.cuadricula[1][1], Objeto::Desvio(Direccion::Arriba));
    }

    // Sin líneas no hay tablero.
    let resultado = construir_tablero(&Vec::new());
    assert!(
        resultado.is_err(),
        "Se esperaba un error al crear el tablero"
    );
    assert_eq!(resultado.err(), Some("No se pudo crear el tablero".to_string()));
}

#[test]
fn test_crear_tablero_errores() {
    // Un símbolo inválido corta la construcción con su mensaje.
    let lineas = vec!["F2 X".to_string(), "W DU".to_string()];
    assert_eq!(
        construir_tablero(&lineas).err(),
        Some("Símbolo no válido en el laberinto".to_string())
    );

    // Filas de largos distintos: el tablero no es cuadrado.
    let lineas = vec!["F2 R W".to_string(), "W DU".to_string()];
    assert_eq!(
        construir_tablero(&lineas).err(),
        Some("El tablero no es cuadrado".to_string())
    );

    // Tantas filas como columnas: 2 filas de 3 símbolos tampoco vale.
    let lineas = vec!["F2 R W".to_string(), "W DU R".to_string()];
    assert_eq!(
        construir_tablero(&lineas).err(),
        Some("El tablero no es cuadrado".to_string())
    );
}

#[test]
fn test_guardar_tablero() {
    // Serializar un tablero produce exactamente el texto esperado.
    let mut tablero = Tablero::new(2);
    tablero.cuadricula = vec![
        vec![Objeto::Bomba(false, 1), Objeto::Enemigo(2, Vec::new())],
        vec![Objeto::Roca, Objeto::Pared],
    ];

    let texto = tablero_a_texto(&tablero);
    assert_eq!(
        texto, "B1 F2 \nR W \n",
        "El contenido del archivo no coincide"
    );
}

#[test]
fn test_serializar_todos_los_simbolos() {
    let mut tablero = Tablero::new(3);
    tablero.cuadricula = vec![
        vec![
            Objeto::Vacio,
            Objeto::Desvio(Direccion::Abajo),
            Objeto::Desvio(Direccion::Derecha),
        ],
        vec![
            Objeto::Desvio(Direccion::Izquierda),
            Objeto::Bomba(true, 12),
            Objeto::Desvio(Direccion::Arriba),
        ],
        vec![
            Objeto::Enemigo(1, vec![(0, 0)]),
            Objeto::Roca,
            Objeto::Bomba(false, 305),
        ],
    ];
    let texto = tablero_a_texto(&tablero);
    assert_eq!(texto, "_ DD DR \nDL S12 DU \nF1 R B305 \n");
}

#[test]
fn test_ida_y_vuelta_del_codec() {
    // Construir desde texto y serializar devuelve las mismas líneas.
    let lineas = vec![
        "B2 DD _".to_string(),
        "W F2 W".to_string(),
        "S3 W DU".to_string(),
    ];
    let tablero = construir_tablero(&lineas).expect("La creación del tablero falló");
    let texto = tablero_a_texto(&tablero);
    assert_eq!(texto, "B2 DD _ \nW F2 W \nS3 W DU \n");
}
