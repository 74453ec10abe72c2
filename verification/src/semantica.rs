//! La semántica del motor de detonación, escrita como funciones de
//! especificación sobre la vista matemática del tablero.
//!
//! La vista de un tablero es una secuencia de filas, cada una una secuencia
//! de [`VistaObjeto`]. La función central es [`espec_detonar`]: el estado
//! exacto del tablero después de detonar una bomba. Las funciones ejecutables
//! de [`crate::tablero`] demuestran que producen exactamente este resultado.
//!
//! La terminación de la recursión mutua se apoya en una medida lexicográfica
//! `(bombas(g), fase, resto)`: cada desvío reduce estrictamente el resto de
//! alcance, y cada reacción en cadena vacía primero la casilla de la bomba
//! encadenada, de modo que la cantidad de bombas baja estrictamente. En los
//! puntos donde esa baja no es sintácticamente evidente, la definición se
//! protege con [`podar`]; [`lema_bombas_onda`] demuestra que la protección
//! nunca se activa.

use vstd::prelude::*;
use crate::direccion::Direccion;
use crate::objeto::VistaObjeto;

verus! {

/// La cuadrícula es cuadrada: cada fila tiene tantas casillas como filas hay.
pub open spec fn cuadrada(g: Seq<Seq<VistaObjeto>>) -> bool {
    forall|f: int| 0 <= f < g.len() ==> (#[trigger] g[f]).len() == g.len()
}

/// La posición `(x, y)` está dentro de la cuadrícula.
pub open spec fn en_limites(g: Seq<Seq<VistaObjeto>>, x: int, y: int) -> bool {
    0 <= y < g.len() && 0 <= x < g.len()
}

/// La casilla en la columna `x` y la fila `y`.
pub open spec fn celda(g: Seq<Seq<VistaObjeto>>, x: int, y: int) -> VistaObjeto {
    g[y][x]
}

/// La cuadrícula con la casilla `(x, y)` reemplazada por `o`.
pub open spec fn poner(
    g: Seq<Seq<VistaObjeto>>,
    x: int,
    y: int,
    o: VistaObjeto,
) -> Seq<Seq<VistaObjeto>> {
    g.update(y, g[y].update(x, o))
}

/// Uno si el objeto es una bomba, cero si no.
pub open spec fn es_bomba(o: VistaObjeto) -> nat {
    if o is Bomba {
        1nat
    } else {
        0nat
    }
}

/// La cantidad de bombas en una fila.
pub open spec fn bombas_fila(f: Seq<VistaObjeto>) -> nat
    decreases f.len(),
{
    if f.len() == 0 {
        0nat
    } else {
        bombas_fila(f.drop_last()) + es_bomba(f.last())
    }
}

/// La cantidad de bombas en la cuadrícula: la medida de terminación de la
/// reacción en cadena.
pub open spec fn bombas(g: Seq<Seq<VistaObjeto>>) -> nat
    decreases g.len(),
{
    if g.len() == 0 {
        0nat
    } else {
        bombas(g.drop_last()) + bombas_fila(g.last())
    }
}

/// Dispositivo de terminación: devuelve `nuevo` salvo que tenga más bombas
/// que `base`. Como ninguna operación del motor agrega bombas
/// ([`lema_bombas_onda`]), la protección nunca se activa; solo permite que
/// la medida de terminación de las definiciones recursivas sea evidente.
pub open spec fn podar(
    nuevo: Seq<Seq<VistaObjeto>>,
    base: Seq<Seq<VistaObjeto>>,
) -> Seq<Seq<VistaObjeto>> {
    if bombas(nuevo) <= bombas(base) {
        nuevo
    } else {
        base
    }
}

/// El efecto de la onda expansiva sobre la casilla `(x, y)`: la cuadrícula
/// resultante y si la onda sigue avanzando.
///
/// - Un enemigo pierde un punto de vida (o desaparece, si le quedaba uno)
///   solo si el origen todavía no lo había golpeado; la onda sigue.
/// - Una bomba se vacía y detona en cadena, con `(x, y)` como origen nuevo;
///   la onda sigue.
/// - Una roca detiene la onda salvo que sea de traspaso; nunca se altera.
/// - Una pared detiene la onda siempre.
/// - Las demás casillas no cambian y la onda sigue.
pub open spec fn espec_efecto(
    g: Seq<Seq<VistaObjeto>>,
    x: int,
    y: int,
    origen: (int, int),
    traspaso: bool,
) -> (Seq<Seq<VistaObjeto>>, bool)
    decreases bombas(g), 0int, 0int,
{
    match celda(g, x, y) {
        VistaObjeto::Enemigo(vida, golpes) => {
            if golpes.contains(origen) {
                (g, true)
            } else if vida > 1 {
                (poner(g, x, y, VistaObjeto::Enemigo(vida - 1, golpes.insert(origen))), true)
            } else {
                (poner(g, x, y, VistaObjeto::Vacio), true)
            }
        },
        VistaObjeto::Bomba(traspaso2, alcance2) => {
            let g1 = poner(g, x, y, VistaObjeto::Vacio);
            if bombas(g1) < bombas(g) {
                (espec_onda(g1, x, y, traspaso2, alcance2), true)
            } else {
                (g1, true)
            }
        },
        VistaObjeto::Roca => (g, traspaso),
        VistaObjeto::Pared => (g, false),
        VistaObjeto::Desvio(_) => (g, true),
        VistaObjeto::Vacio => (g, true),
    }
}

/// La propagación de la onda expansiva: desde `(x, y)` avanza en la
/// dirección `dir` mientras quede resto de alcance, aplicando el efecto a
/// cada casilla alcanzada. Un desvío entrega todo el resto de alcance a la
/// nueva dirección desde su propia posición y corta la propagación actual;
/// salir de la cuadrícula la disipa.
pub open spec fn espec_propagar(
    g: Seq<Seq<VistaObjeto>>,
    origen: (int, int),
    x: int,
    y: int,
    dir: Direccion,
    resto: int,
    traspaso: bool,
) -> Seq<Seq<VistaObjeto>>
    decreases bombas(g), 1int, resto,
{
    if resto <= 0 {
        g
    } else {
        let paso = dir.paso();
        let nx = x + paso.0;
        let ny = y + paso.1;
        if !en_limites(g, nx, ny) {
            g
        } else {
            match celda(g, nx, ny) {
                VistaObjeto::Desvio(d2) => espec_propagar(g, origen, nx, ny, d2, resto - 1, traspaso),
                _ => {
                    let resultado = espec_efecto(g, nx, ny, origen, traspaso);
                    if resultado.1 {
                        espec_propagar(podar(resultado.0, g), origen, nx, ny, dir, resto - 1, traspaso)
                    } else {
                        resultado.0
                    }
                },
            }
        }
    }
}

/// La onda expansiva completa de una bomba ya vaciada en `(x, y)`: propaga
/// hacia arriba, abajo, izquierda y derecha, en ese orden, con `(x, y)` como
/// origen del evento de detonación.
pub open spec fn espec_onda(
    g: Seq<Seq<VistaObjeto>>,
    x: int,
    y: int,
    traspaso: bool,
    alcance: int,
) -> Seq<Seq<VistaObjeto>>
    decreases bombas(g), 2int, 0int,
{
    let origen = (x, y);
    let g1 = espec_propagar(g, origen, x, y, Direccion::Arriba, alcance, traspaso);
    let g2 = espec_propagar(podar(g1, g), origen, x, y, Direccion::Abajo, alcance, traspaso);
    let g3 = espec_propagar(podar(g2, g), origen, x, y, Direccion::Izquierda, alcance, traspaso);
    espec_propagar(podar(g3, g), origen, x, y, Direccion::Derecha, alcance, traspaso)
}

/// El estado del tablero después de detonar en `(x, y)`. Si allí no hay una
/// bomba (o la posición está fuera de la cuadrícula) el tablero no cambia;
/// si la hay, la casilla queda vacía y la onda se propaga.
pub open spec fn espec_detonar(g: Seq<Seq<VistaObjeto>>, x: int, y: int) -> Seq<Seq<VistaObjeto>> {
    if en_limites(g, x, y) {
        match celda(g, x, y) {
            VistaObjeto::Bomba(traspaso, alcance) => espec_onda(
                poner(g, x, y, VistaObjeto::Vacio),
                x,
                y,
                traspaso,
                alcance,
            ),
            _ => g,
        }
    } else {
        g
    }
}

/// Cambiar una casilla de una fila cambia su cantidad de bombas exactamente
/// en la diferencia entre la casilla nueva y la vieja.
pub proof fn lema_bombas_fila_actualizar(f: Seq<VistaObjeto>, x: int, o: VistaObjeto)
    requires
        0 <= x < f.len(),
    ensures
        bombas_fila(f.update(x, o)) + es_bomba(f[x]) == bombas_fila(f) + es_bomba(o),
    decreases f.len(),
{
    let f2 = f.update(x, o);
    if x == f.len() - 1 {
        assert(f2.drop_last() =~= f.drop_last());
    } else {
        assert(f2.drop_last() =~= f.drop_last().update(x, o));
        lema_bombas_fila_actualizar(f.drop_last(), x, o);
    }
}

/// Cambiar una casilla de la cuadrícula cambia su cantidad de bombas
/// exactamente en la diferencia entre la casilla nueva y la vieja.
pub proof fn lema_bombas_poner(g: Seq<Seq<VistaObjeto>>, x: int, y: int, o: VistaObjeto)
    requires
        0 <= y < g.len(),
        0 <= x < g[y].len(),
    ensures
        bombas(poner(g, x, y, o)) + es_bomba(celda(g, x, y)) == bombas(g) + es_bomba(o),
    decreases g.len(),
{
    let g2 = poner(g, x, y, o);
    if y == g.len() - 1 {
        assert(g2.drop_last() =~= g.drop_last());
        lema_bombas_fila_actualizar(g[y], x, o);
    } else {
        assert(g2.last() == g.last());
        lema_bombas_poner(g.drop_last(), x, y, o);
        assert(poner(g.drop_last(), x, y, o) =~= g2.drop_last());
    }
}

/// Reemplazar una casilla conserva la forma de la cuadrícula.
pub proof fn lema_poner_forma(g: Seq<Seq<VistaObjeto>>, x: int, y: int, o: VistaObjeto)
    requires
        0 <= y < g.len(),
        0 <= x < g[y].len(),
    ensures
        poner(g, x, y, o).len() == g.len(),
        forall|f: int| 0 <= f < g.len() ==> (#[trigger] poner(g, x, y, o)[f]).len() == g[f].len(),
        cuadrada(g) ==> cuadrada(poner(g, x, y, o)),
        celda(poner(g, x, y, o), x, y) == o,
        forall|i: int, j: int|
            0 <= j < g.len() && 0 <= i < g[j].len() && !(i == x && j == y)
                ==> celda(poner(g, x, y, o), i, j) == #[trigger] celda(g, i, j),
{
}

/// Reemplazar dos veces la misma casilla es reemplazarla una vez.
pub proof fn lema_poner_poner(
    g: Seq<Seq<VistaObjeto>>,
    x: int,
    y: int,
    a: VistaObjeto,
    b: VistaObjeto,
)
    requires
        0 <= y < g.len(),
        0 <= x < g[y].len(),
    ensures
        poner(poner(g, x, y, a), x, y, b) == poner(g, x, y, b),
{
    assert(poner(poner(g, x, y, a), x, y, b) =~~= poner(g, x, y, b));
}

/// Reemplazar una casilla por su propio contenido no cambia la cuadrícula.
pub proof fn lema_poner_identico(g: Seq<Seq<VistaObjeto>>, x: int, y: int)
    requires
        0 <= y < g.len(),
        0 <= x < g[y].len(),
    ensures
        poner(g, x, y, celda(g, x, y)) == g,
{
    assert(poner(g, x, y, celda(g, x, y)) =~~= g);
}

/// El efecto sobre una casilla nunca agrega bombas y conserva la forma.
pub proof fn lema_bombas_efecto(
    g: Seq<Seq<VistaObjeto>>,
    x: int,
    y: int,
    origen: (int, int),
    traspaso: bool,
)
    requires
        cuadrada(g),
        en_limites(g, x, y),
    ensures
        bombas(espec_efecto(g, x, y, origen, traspaso).0) <= bombas(g),
        cuadrada(espec_efecto(g, x, y, origen, traspaso).0),
        espec_efecto(g, x, y, origen, traspaso).0.len() == g.len(),
    decreases bombas(g), 0int, 0int,
{
    match celda(g, x, y) {
        VistaObjeto::Enemigo(vida, golpes) => {
            if !golpes.contains(origen) {
                if vida > 1 {
                    let o2 = VistaObjeto::Enemigo(vida - 1, golpes.insert(origen));
                    lema_bombas_poner(g, x, y, o2);
                    lema_poner_forma(g, x, y, o2);
                } else {
                    lema_bombas_poner(g, x, y, VistaObjeto::Vacio);
                    lema_poner_forma(g, x, y, VistaObjeto::Vacio);
                }
            }
        },
        VistaObjeto::Bomba(traspaso2, alcance2) => {
            let g1 = poner(g, x, y, VistaObjeto::Vacio);
            lema_bombas_poner(g, x, y, VistaObjeto::Vacio);
            lema_poner_forma(g, x, y, VistaObjeto::Vacio);
            lema_bombas_onda(g1, x, y, traspaso2, alcance2);
        },
        _ => {},
    }
}

/// La propagación de la onda nunca agrega bombas y conserva la forma.
pub proof fn lema_bombas_propagar(
    g: Seq<Seq<VistaObjeto>>,
    origen: (int, int),
    x: int,
    y: int,
    dir: Direccion,
    resto: int,
    traspaso: bool,
)
    requires
        cuadrada(g),
    ensures
        bombas(espec_propagar(g, origen, x, y, dir, resto, traspaso)) <= bombas(g),
        cuadrada(espec_propagar(g, origen, x, y, dir, resto, traspaso)),
        espec_propagar(g, origen, x, y, dir, resto, traspaso).len() == g.len(),
    decreases bombas(g), 1int, resto,
{
    if resto <= 0 {
    } else {
        let paso = dir.paso();
        let nx = x + paso.0;
        let ny = y + paso.1;
        if en_limites(g, nx, ny) {
            match celda(g, nx, ny) {
                VistaObjeto::Desvio(d2) => {
                    lema_bombas_propagar(g, origen, nx, ny, d2, resto - 1, traspaso);
                },
                _ => {
                    lema_bombas_efecto(g, nx, ny, origen, traspaso);
                    let resultado = espec_efecto(g, nx, ny, origen, traspaso);
                    if resultado.1 {
                        assert(podar(resultado.0, g) == resultado.0);
                        lema_bombas_propagar(
                            resultado.0,
                            origen,
                            nx,
                            ny,
                            dir,
                            resto - 1,
                            traspaso,
                        );
                    }
                },
            }
        }
    }
}

/// La onda expansiva completa nunca agrega bombas y conserva la forma.
pub proof fn lema_bombas_onda(
    g: Seq<Seq<VistaObjeto>>,
    x: int,
    y: int,
    traspaso: bool,
    alcance: int,
)
    requires
        cuadrada(g),
    ensures
        bombas(espec_onda(g, x, y, traspaso, alcance)) <= bombas(g),
        cuadrada(espec_onda(g, x, y, traspaso, alcance)),
        espec_onda(g, x, y, traspaso, alcance).len() == g.len(),
    decreases bombas(g), 2int, 0int,
{
    let origen = (x, y);
    let g1 = espec_propagar(g, origen, x, y, Direccion::Arriba, alcance, traspaso);
    lema_bombas_propagar(g, origen, x, y, Direccion::Arriba, alcance, traspaso);
    assert(podar(g1, g) == g1);
    let g2 = espec_propagar(g1, origen, x, y, Direccion::Abajo, alcance, traspaso);
    lema_bombas_propagar(g1, origen, x, y, Direccion::Abajo, alcance, traspaso);
    assert(podar(g2, g) == g2);
    let g3 = espec_propagar(g2, origen, x, y, Direccion::Izquierda, alcance, traspaso);
    lema_bombas_propagar(g2, origen, x, y, Direccion::Izquierda, alcance, traspaso);
    assert(podar(g3, g) == g3);
    lema_bombas_propagar(g3, origen, x, y, Direccion::Derecha, alcance, traspaso);
}

} // verus!
