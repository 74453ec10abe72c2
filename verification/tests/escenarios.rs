//! Escenarios completos: construir un tablero desde texto, detonar y
//! observar el estado final.

use tp_individual::direccion::Direccion;
use tp_individual::objeto::Objeto;
use tp_individual::simbolos::{construir_tablero, tablero_a_texto};

#[test]
fn test_detonacion_de_bomba() {
    let lineas = vec![
        "B1 R B1 ".to_string(),
        "W F2 W".to_string(),
        "_ W R".to_string(),
    ];

    let mut tablero = match construir_tablero(&lineas) {
        Ok(tab) => tab,
        Err(err) => {
            panic!("Fallo la creacion del tablero: {}", err);
        }
    };

    if let Objeto::Bomba(false, 1) = tablero.cuadricula[0][0] {
        // Detonar la bomba en la posición (0, 0)
        if tablero.detonar(0, 0).is_ok() {
            // Verificar que la bomba haya sido reemplazada por un espacio
            // vacío después de la detonación
            if let Objeto::Vacio = tablero.cuadricula[0][0] {
                assert_eq!(tablero.cuadricula[0][1], Objeto::Roca);
                assert_eq!(tablero.cuadricula[1][2], Objeto::Pared);
            } else {
                panic!("No pudo detonar la bomba");
            }
        } else {
            panic!("No pudo detonar la bombas");
        }
    } else {
        panic!("Estado inicial de la bomba incorrecto");
    }
}

#[test]
fn test_detonacion_con_desvio() {
    let lineas = vec![
        "B2 DD _".to_string(),
        "W F2 W".to_string(),
        "S3 W DU".to_string(),
    ];

    let mut tablero = match construir_tablero(&lineas) {
        Ok(tab) => tab,
        Err(err) => {
            panic!("Fallo la creacion del tablero: {}", err);
        }
    };

    // Verificar que la bomba esté en la posición deseada antes de la detonación
    if let Objeto::Bomba(false, 2) = tablero.cuadricula[0][0] {
        if tablero.detonar(0, 0).is_ok() {
            if let Objeto::Vacio = tablero.cuadricula[0][0] {
                assert_eq!(tablero.cuadricula[1][0], Objeto::Pared);
                if let Objeto::Desvio(Direccion::Abajo) = tablero.cuadricula[0][1] {
                    assert_eq!(tablero.cuadricula[0][2], Objeto::Vacio);
                    if let Objeto::Enemigo(1, set) = &tablero.cuadricula[1][1] {
                        assert!(set.contains(&(0, 0)));
                    } else {
                        panic!("Se esperaba un enemigo en (1, 1)");
                    }
                } else {
                    panic!("Se esperaba DD en (0, 1)");
                }

                if let Objeto::Bomba(true, 3) = tablero.cuadricula[2][0] {
                } else {
                    panic!("Estado final de la bomba de traspaso incorrecto");
                }
            } else {
                panic!("Fallo la detonacion");
            }
        } else {
            panic!("Fallo la detonacion");
        }
    } else {
        panic!("Estado inicial de la bomba incorrecto");
    }
}

#[test]
fn test_errores_detonacion() {
    let lineas = vec![
        "B2 _ _".to_string(),
        "_ _ _".to_string(),
        "_ _ _".to_string(),
    ];

    let mut tablero = match construir_tablero(&lineas) {
        Ok(tab) => tab,
        Err(err) => {
            panic!("Fallo la creacion del tablero: {}", err);
        }
    };

    // Intentar detonar una bomba en (0, 0), lo cual debe ser exitoso
    if tablero.detonar(0, 0).is_ok() {
        // Intentar detonar una bomba en (1, 1), que no es una bomba (debe
        // generar un error)
        if let Err(err) = tablero.detonar(1, 1) {
            assert_eq!(
                err,
                "ERROR: No es una bomba, no se puede detonar.".to_string()
            );
        } else {
            panic!("Fallo al generar un error en (1, 1)");
        }
    } else {
        panic!("Fallo la detonacion at (0, 0)");
    }
}

#[test]
fn test_archivos_salida() {
    let mut tablero = tp_individual::tablero::Tablero::new(3);
    tablero.cuadricula = vec![
        vec![
            Objeto::Bomba(false, 2),
            Objeto::Desvio(Direccion::Abajo),
            Objeto::Vacio,
        ],
        vec![Objeto::Vacio, Objeto::Enemigo(3, Vec::new()), Objeto::Roca],
        vec![Objeto::Pared, Objeto::Vacio, Objeto::Bomba(false, 1)],
    ];

    let x = 0;
    let y = 0;

    if let Err(err) = tablero.detonar(x, y) {
        panic!("Fallo al detonar la bomba: {:?}", err);
    }

    // El estado final esperado, serializado.
    let expected_output = "_ DD _ \n_ F2 R \nW _ B1 \n";
    let actual_output = tablero_a_texto(&tablero);
    assert_eq!(
        expected_output, actual_output,
        "El archivo de salida no coincide con el estado final esperado"
    );
}
