//! Pruebas del motor de detonación sobre tableros construidos a mano.

use tp_individual::direccion::Direccion;
use tp_individual::objeto::Objeto;
use tp_individual::tablero::Tablero;

#[test]
fn test_tablero_new() {
    let tablero = Tablero::new(5);
    assert_eq!(tablero.tamano, 5);
    assert_eq!(tablero.cuadricula.len(), 0);
}

#[test]
fn test_obtener_objeto_en_posicion() {
    let mut tablero = Tablero::new(3);
    tablero.cuadricula = vec![
        vec![Objeto::Vacio, Objeto::Roca, Objeto::Pared],
        vec![
            Objeto::Bomba(false, 2),
            Objeto::Desvio(Direccion::Arriba),
            Objeto::Enemigo(3, Vec::new()),
        ],
        vec![Objeto::Bomba(true, 1), Objeto::Vacio, Objeto::Roca],
    ];

    assert_eq!(
        tablero.obtener_objeto_en_posicion(0, 0),
        Some(&Objeto::Vacio)
    );
    assert_eq!(
        tablero.obtener_objeto_en_posicion(1, 1),
        Some(&Objeto::Desvio(Direccion::Arriba))
    );
    assert_eq!(
        tablero.obtener_objeto_en_posicion(2, 2),
        Some(&Objeto::Roca)
    );
    assert_eq!(tablero.obtener_objeto_en_posicion(0, 3), None);
    assert_eq!(tablero.obtener_objeto_en_posicion(4, 0), None);
}

#[test]
fn test_detonar() {
    let mut tablero = Tablero::new(3);
    tablero.cuadricula = vec![
        vec![Objeto::Bomba(false, 1), Objeto::Vacio, Objeto::Vacio],
        vec![Objeto::Vacio, Objeto::Bomba(true, 2), Objeto::Vacio],
        vec![
            Objeto::Enemigo(2, Vec::new()),
            Objeto::Roca,
            Objeto::Bomba(false, 1),
        ],
    ];

    // Detonar la bomba en (0, 0)
    let result = tablero.detonar(0, 0);
    assert!(
        result.is_ok(),
        "Error al detonar la bomba en (0, 0): {:?}",
        result
    );
    assert_eq!(tablero.cuadricula[0][0], Objeto::Vacio); // Porque explotó la bomba
    assert_eq!(tablero.cuadricula[1][0], Objeto::Vacio); // Porque explotó la bomba

    // Detonar la bomba en (1, 1)
    let result = tablero.detonar(1, 1);
    assert!(
        result.is_ok(),
        "Error al detonar la bomba en (1, 1): {:?}",
        result
    );
    assert_eq!(tablero.cuadricula[1][1], Objeto::Vacio);
    assert_eq!(tablero.cuadricula[0][1], Objeto::Vacio);
    assert_eq!(tablero.cuadricula[2][1], Objeto::Roca);

    // Detonar la bomba en (2, 2)
    let result = tablero.detonar(2, 2);
    assert!(
        result.is_ok(),
        "Error al detonar la bomba en (2, 2): {:?}",
        result
    );
    assert_eq!(tablero.cuadricula[2][2], Objeto::Vacio);
    assert_eq!(tablero.cuadricula[1][2], Objeto::Vacio);
}

#[test]
fn test_detonar_en_posicion() {
    let mut tablero = Tablero::new(3);
    tablero.cuadricula = vec![
        vec![
            Objeto::Vacio,
            Objeto::Enemigo(3, Vec::new()),
            Objeto::Bomba(false, 2),
        ],
        vec![Objeto::Bomba(true, 1), Objeto::Roca, Objeto::Pared],
        vec![
            Objeto::Desvio(Direccion::Derecha),
            Objeto::Vacio,
            Objeto::Bomba(false, 3),
        ],
    ];

    let set = vec![(0, 0)];

    let resultado1 = tablero.detonar_en_posicion(1, 0, false, 0, 0);
    assert!(resultado1);
    assert_eq!(tablero.cuadricula[0][1], Objeto::Enemigo(2, set));

    let resultado2 = tablero.detonar_en_posicion(0, 1, true, 1, 1);
    assert!(resultado2);
    assert_eq!(tablero.cuadricula[0][2], Objeto::Bomba(false, 2));
    assert_eq!(tablero.cuadricula[2][0], Objeto::Desvio(Direccion::Derecha));

    let resultado3 = tablero.detonar_en_posicion(2, 2, false, 2, 0);
    assert!(resultado3);
    assert_eq!(tablero.cuadricula[2][2], Objeto::Vacio);
    assert_eq!(tablero.cuadricula[1][2], Objeto::Pared);
}

#[test]
fn test_detonar_bomba_con_diferente_alcance() {
    let mut tablero = Tablero::new(3);
    tablero.cuadricula = vec![
        vec![Objeto::Bomba(false, 2), Objeto::Vacio, Objeto::Vacio],
        vec![
            Objeto::Bomba(true, 1),
            Objeto::Bomba(false, 3),
            Objeto::Vacio,
        ],
        vec![
            Objeto::Bomba(true, 1),
            Objeto::Vacio,
            Objeto::Bomba(false, 4),
        ],
    ];

    // Detonar la bomba en (0, 0)
    let result = tablero.detonar(0, 0);
    assert!(
        result.is_ok(),
        "Error al detonar la bomba en (0, 0): {:?}",
        result
    );
    assert_eq!(tablero.cuadricula[0][0], Objeto::Vacio);
    assert_eq!(tablero.cuadricula[1][0], Objeto::Vacio);
    assert_eq!(tablero.cuadricula[2][0], Objeto::Vacio);

    // Detonar la bomba en (2, 2)
    let result = tablero.detonar(2, 2);
    assert!(
        result.is_ok(),
        "Error al detonar la bomba en (2, 2): {:?}",
        result
    );
    assert_eq!(tablero.cuadricula[2][2], Objeto::Vacio);
    assert_eq!(tablero.cuadricula[1][2], Objeto::Vacio);
    assert_eq!(tablero.cuadricula[0][2], Objeto::Vacio);
}

#[test]
fn test_detonar_in_direction() {
    let mut tablero = Tablero::new(3);
    tablero.cuadricula = vec![
        vec![Objeto::Bomba(false, 2), Objeto::Vacio, Objeto::Vacio],
        vec![
            Objeto::Bomba(true, 2),
            Objeto::Enemigo(3, Vec::new()),
            Objeto::Roca,
        ],
        vec![
            Objeto::Desvio(Direccion::Derecha),
            Objeto::Enemigo(2, Vec::new()),
            Objeto::Bomba(false, 2),
        ],
    ];

    tablero.detonar_en_direccion((0, 1, 0, 1, true), Direccion::Derecha, 2);
    let set_uno = vec![(0, 1)];
    assert_eq!(tablero.cuadricula[1][1], Objeto::Enemigo(2, set_uno));
    assert_eq!(tablero.cuadricula[1][2], Objeto::Roca);

    tablero.detonar_en_direccion((0, 1, 0, 1, true), Direccion::Abajo, 2);
    let set_dos = vec![(0, 1)];
    assert_eq!(tablero.cuadricula[2][0], Objeto::Desvio(Direccion::Derecha));
    assert_eq!(tablero.cuadricula[2][1], Objeto::Enemigo(1, set_dos));
}

#[test]
fn test_acceder_posiciones_fuera_del_limite() {
    let tablero = Tablero::new(2);
    assert_eq!(tablero.obtener_objeto_en_posicion(2, 1), None);
    assert_eq!(tablero.obtener_objeto_en_posicion(1, 2), None);
}

#[test]
fn test_dos_explosiones_en_mismo_enemigo() {
    let mut tablero = Tablero::new(3);
    tablero.cuadricula = vec![
        vec![
            Objeto::Bomba(false, 3),
            Objeto::Enemigo(2, Vec::new()),
            Objeto::Vacio,
        ],
        vec![
            Objeto::Desvio(Direccion::Derecha),
            Objeto::Desvio(Direccion::Arriba),
            Objeto::Roca,
        ],
        vec![Objeto::Pared, Objeto::Vacio, Objeto::Pared],
    ];

    // Detonar la bomba en (0, 0)
    let result = tablero.detonar(0, 0);
    assert!(
        result.is_ok(),
        "Error al detonar la bomba en (0, 0): {:?}",
        result
    );
    let set = vec![(0, 0)];
    assert_eq!(tablero.cuadricula[0][1], Objeto::Enemigo(1, set));
}

#[test]
fn test_detonar_con_pared() {
    let mut tablero = Tablero::new(5);
    tablero.cuadricula = vec![
        vec![
            Objeto::Vacio,
            Objeto::Vacio,
            Objeto::Vacio,
            Objeto::Vacio,
            Objeto::Vacio,
        ],
        vec![
            Objeto::Bomba(false, 1),
            Objeto::Bomba(false, 2),
            Objeto::Pared,
            Objeto::Enemigo(1, Vec::new()),
        ],
        vec![
            Objeto::Vacio,
            Objeto::Vacio,
            Objeto::Vacio,
            Objeto::Vacio,
            Objeto::Vacio,
        ],
        vec![
            Objeto::Vacio,
            Objeto::Vacio,
            Objeto::Vacio,
            Objeto::Vacio,
            Objeto::Vacio,
        ],
        vec![
            Objeto::Vacio,
            Objeto::Vacio,
            Objeto::Vacio,
            Objeto::Vacio,
            Objeto::Vacio,
        ],
    ];

    // Detonar la bomba en (1, 1)
    let result = tablero.detonar(1, 1);
    assert!(
        result.is_ok(),
        "Error al detonar la bomba en (1, 1): {:?}",
        result
    );

    assert_eq!(tablero.cuadricula[1][0], Objeto::Vacio);
    assert_eq!(tablero.cuadricula[1][1], Objeto::Vacio); // Bomba explotó, pero detenida por la pared.
    assert_eq!(tablero.cuadricula[1][2], Objeto::Pared); // La pared detuvo la explosión.
    let set = Vec::new();
    assert_eq!(tablero.cuadricula[1][3], Objeto::Enemigo(1, set));
}

#[test]
fn test_detonar_en_posicion_no_es_bomba() {
    let mut tablero = Tablero::new(3);
    tablero.cuadricula = vec![
        vec![
            Objeto::Vacio,
            Objeto::Enemigo(3, Vec::new()),
            Objeto::Roca,
        ],
        vec![
            Objeto::Desvio(Direccion::Derecha),
            Objeto::Vacio,
            Objeto::Enemigo(2, Vec::new()),
        ],
        vec![
            Objeto::Bomba(true, 2),
            Objeto::Pared,
            Objeto::Bomba(false, 2),
        ],
    ];

    // Detonar en una posición que no es una bomba (0, 1).
    let result = tablero.detonar(0, 1);
    assert!(result.is_err(), "Se esperaba un error al detonar en (0, 1)");
    assert_eq!(tablero.cuadricula[0][0], Objeto::Vacio);
    assert_eq!(tablero.cuadricula[0][1], Objeto::Enemigo(3, Vec::new()));
    assert_eq!(tablero.cuadricula[0][2], Objeto::Roca);
}

#[test]
fn test_detonar_fuera_de_limites() {
    let mut tablero = Tablero::new(3);
    tablero.cuadricula = vec![
        vec![
            Objeto::Bomba(true, 2),
            Objeto::Roca,
            Objeto::Enemigo(2, Vec::new()),
        ],
        vec![
            Objeto::Desvio(Direccion::Izquierda),
            Objeto::Bomba(false, 1),
            Objeto::Vacio,
        ],
        vec![Objeto::Vacio, Objeto::Pared, Objeto::Bomba(true, 1)],
    ];

    // Detonar fuera de los límites del tablero (3, 2).
    let result = tablero.detonar(3, 2);
    assert!(
        result.is_err(),
        "Se esperaba un error al detonar fuera de límites"
    );
    assert_eq!(tablero.cuadricula[2][0], Objeto::Vacio);
    assert_eq!(tablero.cuadricula[2][1], Objeto::Pared);
    assert_eq!(tablero.cuadricula[2][2], Objeto::Bomba(true, 1));
}

#[test]
fn test_alcance_cero_solo_vacia_su_casilla() {
    // Una bomba de alcance cero solo reemplaza su propia casilla por Vacio.
    let mut tablero = Tablero::new(3);
    tablero.cuadricula = vec![
        vec![Objeto::Vacio, Objeto::Enemigo(1, Vec::new()), Objeto::Vacio],
        vec![Objeto::Bomba(true, 3), Objeto::Bomba(false, 0), Objeto::Roca],
        vec![Objeto::Vacio, Objeto::Enemigo(2, Vec::new()), Objeto::Vacio],
    ];

    let result = tablero.detonar(1, 1);
    assert!(result.is_ok());
    assert_eq!(tablero.cuadricula[1][1], Objeto::Vacio);
    assert_eq!(tablero.cuadricula[0][1], Objeto::Enemigo(1, Vec::new()));
    assert_eq!(tablero.cuadricula[1][0], Objeto::Bomba(true, 3));
    assert_eq!(tablero.cuadricula[1][2], Objeto::Roca);
    assert_eq!(tablero.cuadricula[2][1], Objeto::Enemigo(2, Vec::new()));
}

#[test]
fn test_presupuesto_del_desvio() {
    // La onda viaja con alcance 2, consume 1 paso hasta el desvío y la
    // propagación redirigida recibe exactamente 1: alcanza (1, 1) pero no
    // llega a (1, 2).
    let mut tablero = Tablero::new(3);
    tablero.cuadricula = vec![
        vec![
            Objeto::Bomba(false, 2),
            Objeto::Desvio(Direccion::Abajo),
            Objeto::Vacio,
        ],
        vec![Objeto::Vacio, Objeto::Enemigo(2, Vec::new()), Objeto::Vacio],
        vec![Objeto::Vacio, Objeto::Enemigo(2, Vec::new()), Objeto::Vacio],
    ];

    let result = tablero.detonar(0, 0);
    assert!(result.is_ok());
    // El primer enemigo recibe el golpe del origen (0, 0).
    assert_eq!(tablero.cuadricula[1][1], Objeto::Enemigo(1, vec![(0, 0)]));
    // El presupuesto se agotó: el segundo enemigo queda intacto.
    assert_eq!(tablero.cuadricula[2][1], Objeto::Enemigo(2, Vec::new()));
}

#[test]
fn test_roca_detiene_sin_traspaso() {
    // Una bomba común no atraviesa la roca: el enemigo detrás queda intacto
    // y la roca no cambia.
    let mut tablero = Tablero::new(4);
    tablero.cuadricula = vec![
        vec![
            Objeto::Bomba(false, 3),
            Objeto::Roca,
            Objeto::Enemigo(2, Vec::new()),
            Objeto::Vacio,
        ],
        vec![Objeto::Vacio, Objeto::Vacio, Objeto::Vacio, Objeto::Vacio],
        vec![Objeto::Vacio, Objeto::Vacio, Objeto::Vacio, Objeto::Vacio],
        vec![Objeto::Vacio, Objeto::Vacio, Objeto::Vacio, Objeto::Vacio],
    ];

    let result = tablero.detonar(0, 0);
    assert!(result.is_ok());
    assert_eq!(tablero.cuadricula[0][1], Objeto::Roca);
    assert_eq!(tablero.cuadricula[0][2], Objeto::Enemigo(2, Vec::new()));
}

#[test]
fn test_roca_con_traspaso() {
    // Una bomba de traspaso atraviesa la roca, daña al enemigo detrás y la
    // roca queda intacta.
    let mut tablero = Tablero::new(4);
    tablero.cuadricula = vec![
        vec![
            Objeto::Bomba(true, 3),
            Objeto::Roca,
            Objeto::Enemigo(2, Vec::new()),
            Objeto::Vacio,
        ],
        vec![Objeto::Vacio, Objeto::Vacio, Objeto::Vacio, Objeto::Vacio],
        vec![Objeto::Vacio, Objeto::Vacio, Objeto::Vacio, Objeto::Vacio],
        vec![Objeto::Vacio, Objeto::Vacio, Objeto::Vacio, Objeto::Vacio],
    ];

    let result = tablero.detonar(0, 0);
    assert!(result.is_ok());
    assert_eq!(tablero.cuadricula[0][1], Objeto::Roca);
    assert_eq!(tablero.cuadricula[0][2], Objeto::Enemigo(1, vec![(0, 0)]));
}

#[test]
fn test_onda_se_disipa_en_el_borde() {
    // La onda sale del tablero sin alcanzar ninguna casilla: no hay error y
    // la única mutación es vaciar la casilla de la bomba.
    let mut tablero = Tablero::new(2);
    tablero.cuadricula = vec![
        vec![Objeto::Bomba(false, 5), Objeto::Vacio],
        vec![Objeto::Vacio, Objeto::Vacio],
    ];

    let result = tablero.detonar(0, 0);
    assert!(result.is_ok());
    assert_eq!(tablero.cuadricula[0][0], Objeto::Vacio);
    assert_eq!(tablero.cuadricula[0][1], Objeto::Vacio);
    assert_eq!(tablero.cuadricula[1][0], Objeto::Vacio);
    assert_eq!(tablero.cuadricula[1][1], Objeto::Vacio);
}

#[test]
fn test_dos_origenes_danan_dos_veces() {
    // Dos bombas encadenadas son dos orígenes distintos: el enemigo pierde
    // un punto de vida por cada una.
    let mut tablero = Tablero::new(3);
    tablero.cuadricula = vec![
        vec![
            Objeto::Bomba(false, 1),
            Objeto::Bomba(false, 1),
            Objeto::Enemigo(3, Vec::new()),
        ],
        vec![Objeto::Vacio, Objeto::Vacio, Objeto::Vacio],
        vec![Objeto::Vacio, Objeto::Vacio, Objeto::Vacio],
    ];

    let result = tablero.detonar(0, 0);
    assert!(result.is_ok());
    // La bomba en (1, 0) detonó en cadena y su onda golpeó al enemigo con su
    // propio origen; la onda de (0, 0) no llega (alcance 1).
    assert_eq!(tablero.cuadricula[0][2], Objeto::Enemigo(2, vec![(1, 0)]));
}
