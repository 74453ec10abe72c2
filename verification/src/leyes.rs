//! Las leyes generales del motor de detonación, demostradas sobre las
//! funciones de especificación de [`crate::semantica`].

use vstd::prelude::*;
use crate::direccion::{lema_paso_lineal, Direccion};
use crate::objeto::VistaObjeto;
use crate::semantica::{
    bombas, celda, cuadrada, en_limites, espec_detonar, espec_efecto, espec_onda, espec_propagar,
    lema_bombas_efecto, lema_bombas_poner, lema_bombas_propagar, lema_poner_forma, podar, poner,
};
use vstd::set_lib::lemma_set_disjoint_lens;

verus! {

/// Un enemigo con la vida y los golpes dados pudo haber sido eliminado:
/// hizo falta al menos un origen nuevo, y al menos tantos orígenes nuevos
/// distintos como vida le quedaba.
pub open spec fn remocion_valida(vida: int, golpes: Set<(int, int)>) -> bool {
    exists|nuevos: Set<(int, int)>|
        {
            &&& #[trigger] nuevos.len() >= vida
            &&& nuevos.len() >= 1
            &&& nuevos.finite()
            &&& nuevos.disjoint(golpes)
        }
}

/// Un conjunto con las propiedades pedidas atestigua la remoción.
proof fn lema_remocion_testigo(vida: int, golpes: Set<(int, int)>, nuevos: Set<(int, int)>)
    requires
        nuevos.len() >= vida,
        nuevos.len() >= 1,
        nuevos.finite(),
        nuevos.disjoint(golpes),
    ensures
        remocion_valida(vida, golpes),
{
}

/// Elige un conjunto de orígenes nuevos que atestigua la remoción.
proof fn lema_remocion_elegir(vida: int, golpes: Set<(int, int)>) -> (nuevos: Set<(int, int)>)
    requires
        remocion_valida(vida, golpes),
    ensures
        nuevos.len() >= vida,
        nuevos.len() >= 1,
        nuevos.finite(),
        nuevos.disjoint(golpes),
{
    choose|nuevos: Set<(int, int)>|
        {
            &&& #[trigger] nuevos.len() >= vida
            &&& nuevos.len() >= 1
            &&& nuevos.finite()
            &&& nuevos.disjoint(golpes)
        }
}

/// Cómo puede evolucionar una casilla durante una detonación:
///
/// - una pared, una roca, un desvío o una casilla vacía nunca cambian;
/// - una bomba queda igual o queda vacía (si detonó);
/// - un enemigo sigue siendo enemigo, con el conjunto de orígenes que lo
///   golpearon solo creciendo y la vida bajando exactamente un punto por
///   cada origen nuevo registrado — nunca más de un punto por origen, porque
///   un conjunto no repite orígenes —, o queda vacío, y para eso hicieron
///   falta al menos tantos orígenes nuevos distintos como vida tenía.
pub open spec fn evolucion_celda(c: VistaObjeto, c2: VistaObjeto) -> bool {
    match c {
        VistaObjeto::Enemigo(vida, golpes) => match c2 {
            VistaObjeto::Enemigo(vida2, golpes2) => {
                &&& golpes.subset_of(golpes2)
                &&& golpes2.difference(golpes).finite()
                &&& vida2 == vida - golpes2.difference(golpes).len()
                &&& (vida2 != vida ==> vida2 >= 1)
            },
            VistaObjeto::Vacio => remocion_valida(vida, golpes),
            _ => false,
        },
        VistaObjeto::Bomba(_, _) => c2 == c || c2 == VistaObjeto::Vacio,
        _ => c2 == c,
    }
}

/// Toda casilla de `g2` evolucionó desde la casilla correspondiente de `g`,
/// y la forma de la cuadrícula no cambió.
pub open spec fn evolucion(g: Seq<Seq<VistaObjeto>>, g2: Seq<Seq<VistaObjeto>>) -> bool {
    &&& g2.len() == g.len()
    &&& (forall|j: int| 0 <= j < g.len() ==> (#[trigger] g2[j]).len() == g[j].len())
    &&& (forall|i: int, j: int|
        0 <= j < g.len() && 0 <= i < g[j].len() ==> evolucion_celda(
            #[trigger] celda(g, i, j),
            celda(g2, i, j),
        ))
}

/// Una casilla evoluciona hacia sí misma.
proof fn lema_evolucion_celda_reflexiva(c: VistaObjeto)
    ensures
        evolucion_celda(c, c),
{
    match c {
        VistaObjeto::Enemigo(vida, golpes) => {
            assert(golpes.difference(golpes) =~= Set::<(int, int)>::empty());
        },
        _ => {},
    }
}

/// Una cuadrícula evoluciona hacia sí misma.
pub proof fn lema_evolucion_reflexiva(g: Seq<Seq<VistaObjeto>>)
    ensures
        evolucion(g, g),
{
    assert forall|i: int, j: int| 0 <= j < g.len() && 0 <= i < g[j].len() implies evolucion_celda(
        #[trigger] celda(g, i, j),
        celda(g, i, j),
    ) by {
        lema_evolucion_celda_reflexiva(celda(g, i, j));
    }
}

/// La evolución de una casilla es transitiva.
proof fn lema_evolucion_celda_transitiva(c: VistaObjeto, c2: VistaObjeto, c3: VistaObjeto)
    requires
        evolucion_celda(c, c2),
        evolucion_celda(c2, c3),
    ensures
        evolucion_celda(c, c3),
{
    match c {
        VistaObjeto::Enemigo(vida, golpes) => match c2 {
            VistaObjeto::Enemigo(vida2, golpes2) => match c3 {
                VistaObjeto::Enemigo(vida3, golpes3) => {
                    let d12 = golpes2.difference(golpes);
                    let d23 = golpes3.difference(golpes2);
                    let d13 = golpes3.difference(golpes);
                    assert(d13 =~= d12 + d23);
                    assert(d12.disjoint(d23));
                    lemma_set_disjoint_lens(d12, d23);
                },
                VistaObjeto::Vacio => {
                    let d12 = golpes2.difference(golpes);
                    let s2 = lema_remocion_elegir(vida2, golpes2);
                    let s = d12 + s2;
                    assert(d12.disjoint(s2));
                    lemma_set_disjoint_lens(d12, s2);
                    assert(s.disjoint(golpes));
                    lema_remocion_testigo(vida, golpes, s);
                },
                _ => {},
            },
            _ => {},
        },
        _ => {},
    }
}

/// La evolución de la cuadrícula es transitiva.
pub proof fn lema_evolucion_transitiva(
    g: Seq<Seq<VistaObjeto>>,
    g2: Seq<Seq<VistaObjeto>>,
    g3: Seq<Seq<VistaObjeto>>,
)
    requires
        evolucion(g, g2),
        evolucion(g2, g3),
    ensures
        evolucion(g, g3),
{
    assert forall|i: int, j: int| 0 <= j < g.len() && 0 <= i < g[j].len() implies evolucion_celda(
        #[trigger] celda(g, i, j),
        celda(g3, i, j),
    ) by {
        assert(evolucion_celda(celda(g, i, j), celda(g2, i, j)));
        assert(evolucion_celda(celda(g2, i, j), celda(g3, i, j)));
        lema_evolucion_celda_transitiva(celda(g, i, j), celda(g2, i, j), celda(g3, i, j));
    }
}

/// El efecto sobre una casilla hace evolucionar la cuadrícula.
proof fn lema_evolucion_efecto(
    g: Seq<Seq<VistaObjeto>>,
    x: int,
    y: int,
    origen: (int, int),
    traspaso: bool,
)
    requires
        cuadrada(g),
        en_limites(g, x, y),
    ensures
        evolucion(g, espec_efecto(g, x, y, origen, traspaso).0),
    decreases bombas(g), 0int, 0int,
{
    match celda(g, x, y) {
        VistaObjeto::Enemigo(vida, golpes) => {
            if golpes.contains(origen) {
                lema_evolucion_reflexiva(g);
            } else if vida > 1 {
                let c2 = VistaObjeto::Enemigo(vida - 1, golpes.insert(origen));
                let g2 = poner(g, x, y, c2);
                lema_poner_forma(g, x, y, c2);
                assert(golpes.insert(origen).difference(golpes) =~= Set::<(
                    int,
                    int,
                )>::empty().insert(origen));
                assert(evolucion_celda(celda(g, x, y), c2));
                assert forall|i: int, j: int|
                    0 <= j < g.len() && 0 <= i < g[j].len() implies evolucion_celda(
                    #[trigger] celda(g, i, j),
                    celda(g2, i, j),
                ) by {
                    if !(i == x && j == y) {
                        lema_evolucion_celda_reflexiva(celda(g, i, j));
                    }
                }
            } else {
                let g2 = poner(g, x, y, VistaObjeto::Vacio);
                lema_poner_forma(g, x, y, VistaObjeto::Vacio);
                let testigo = Set::<(int, int)>::empty().insert(origen);
                assert(testigo.len() == 1);
                lema_remocion_testigo(vida, golpes, testigo);
                assert forall|i: int, j: int|
                    0 <= j < g.len() && 0 <= i < g[j].len() implies evolucion_celda(
                    #[trigger] celda(g, i, j),
                    celda(g2, i, j),
                ) by {
                    if !(i == x && j == y) {
                        lema_evolucion_celda_reflexiva(celda(g, i, j));
                    }
                }
            }
        },
        VistaObjeto::Bomba(traspaso2, alcance2) => {
            let g1 = poner(g, x, y, VistaObjeto::Vacio);
            lema_bombas_poner(g, x, y, VistaObjeto::Vacio);
            lema_poner_forma(g, x, y, VistaObjeto::Vacio);
            assert forall|i: int, j: int|
                0 <= j < g.len() && 0 <= i < g[j].len() implies evolucion_celda(
                #[trigger] celda(g, i, j),
                celda(g1, i, j),
            ) by {
                if !(i == x && j == y) {
                    lema_evolucion_celda_reflexiva(celda(g, i, j));
                }
            }
            lema_evolucion_onda(g1, x, y, traspaso2, alcance2);
            lema_evolucion_transitiva(g, g1, espec_onda(g1, x, y, traspaso2, alcance2));
        },
        _ => {
            lema_evolucion_reflexiva(g);
        },
    }
}

/// La propagación de la onda hace evolucionar la cuadrícula.
proof fn lema_evolucion_propagar(
    g: Seq<Seq<VistaObjeto>>,
    origen: (int, int),
    x: int,
    y: int,
    dir: Direccion,
    resto: int,
    traspaso: bool,
)
    requires
        cuadrada(g),
    ensures
        evolucion(g, espec_propagar(g, origen, x, y, dir, resto, traspaso)),
    decreases bombas(g), 1int, resto,
{
    if resto <= 0 {
        lema_evolucion_reflexiva(g);
    } else {
        let paso = dir.paso();
        let nx = x + paso.0;
        let ny = y + paso.1;
        if !en_limites(g, nx, ny) {
            lema_evolucion_reflexiva(g);
        } else {
            match celda(g, nx, ny) {
                VistaObjeto::Desvio(d2) => {
                    lema_evolucion_propagar(g, origen, nx, ny, d2, resto - 1, traspaso);
                },
                _ => {
                    let resultado = espec_efecto(g, nx, ny, origen, traspaso);
                    lema_bombas_efecto(g, nx, ny, origen, traspaso);
                    lema_evolucion_efecto(g, nx, ny, origen, traspaso);
                    if resultado.1 {
                        assert(podar(resultado.0, g) == resultado.0);
                        lema_evolucion_propagar(
                            resultado.0,
                            origen,
                            nx,
                            ny,
                            dir,
                            resto - 1,
                            traspaso,
                        );
                        lema_evolucion_transitiva(
                            g,
                            resultado.0,
                            espec_propagar(resultado.0, origen, nx, ny, dir, resto - 1, traspaso),
                        );
                    }
                },
            }
        }
    }
}

/// La onda expansiva completa hace evolucionar la cuadrícula.
proof fn lema_evolucion_onda(
    g: Seq<Seq<VistaObjeto>>,
    x: int,
    y: int,
    traspaso: bool,
    alcance: int,
)
    requires
        cuadrada(g),
    ensures
        evolucion(g, espec_onda(g, x, y, traspaso, alcance)),
    decreases bombas(g), 2int, 0int,
{
    let origen = (x, y);
    let g1 = espec_propagar(g, origen, x, y, Direccion::Arriba, alcance, traspaso);
    lema_bombas_propagar(g, origen, x, y, Direccion::Arriba, alcance, traspaso);
    lema_evolucion_propagar(g, origen, x, y, Direccion::Arriba, alcance, traspaso);
    assert(podar(g1, g) == g1);
    let g2 = espec_propagar(g1, origen, x, y, Direccion::Abajo, alcance, traspaso);
    lema_bombas_propagar(g1, origen, x, y, Direccion::Abajo, alcance, traspaso);
    lema_evolucion_propagar(g1, origen, x, y, Direccion::Abajo, alcance, traspaso);
    lema_evolucion_transitiva(g, g1, g2);
    assert(podar(g2, g) == g2);
    let g3 = espec_propagar(g2, origen, x, y, Direccion::Izquierda, alcance, traspaso);
    lema_bombas_propagar(g2, origen, x, y, Direccion::Izquierda, alcance, traspaso);
    lema_evolucion_propagar(g2, origen, x, y, Direccion::Izquierda, alcance, traspaso);
    lema_evolucion_transitiva(g, g2, g3);
    assert(podar(g3, g) == g3);
    let g4 = espec_propagar(g3, origen, x, y, Direccion::Derecha, alcance, traspaso);
    lema_bombas_propagar(g3, origen, x, y, Direccion::Derecha, alcance, traspaso);
    lema_evolucion_propagar(g3, origen, x, y, Direccion::Derecha, alcance, traspaso);
    lema_evolucion_transitiva(g, g3, g4);
}

/// Ley de evolución: detonar solo hace evolucionar cada casilla según
/// [`evolucion_celda`]. En particular las paredes, rocas, desvíos y casillas
/// vacías nunca cambian, ninguna casilla se crea, y cada enemigo pierde
/// exactamente un punto de vida por cada origen nuevo que lo golpea.
pub proof fn ley_evolucion_detonar(g: Seq<Seq<VistaObjeto>>, x: int, y: int)
    requires
        cuadrada(g),
    ensures
        evolucion(g, espec_detonar(g, x, y)),
{
    if en_limites(g, x, y) && celda(g, x, y) is Bomba {
        let g1 = poner(g, x, y, VistaObjeto::Vacio);
        lema_poner_forma(g, x, y, VistaObjeto::Vacio);
        lema_bombas_poner(g, x, y, VistaObjeto::Vacio);
        assert forall|i: int, j: int|
            0 <= j < g.len() && 0 <= i < g[j].len() implies evolucion_celda(
            #[trigger] celda(g, i, j),
            celda(g1, i, j),
        ) by {
            if !(i == x && j == y) {
                lema_evolucion_celda_reflexiva(celda(g, i, j));
            }
        }
        match celda(g, x, y) {
            VistaObjeto::Bomba(traspaso, alcance) => {
                lema_evolucion_onda(g1, x, y, traspaso, alcance);
                lema_evolucion_transitiva(g, g1, espec_onda(g1, x, y, traspaso, alcance));
            },
            _ => {},
        }
    } else {
        lema_evolucion_reflexiva(g);
    }
}

/// Ley de deduplicación: en una detonación, un enemigo que sobrevive pierde
/// exactamente un punto de vida por cada origen nuevo registrado. Si todos
/// los caminos que lo alcanzan provienen de un mismo origen `o` — por
/// ejemplo, dos rutas desviadas que convergen — pierde a lo sumo un punto.
pub proof fn ley_deduplicacion(
    g: Seq<Seq<VistaObjeto>>,
    x: int,
    y: int,
    ex: int,
    ey: int,
    o: (int, int),
)
    requires
        cuadrada(g),
        en_limites(g, ex, ey),
        celda(g, ex, ey) is Enemigo,
        celda(espec_detonar(g, x, y), ex, ey) is Enemigo,
    ensures
        ({
            let vida = celda(g, ex, ey)->Enemigo_0;
            let golpes = celda(g, ex, ey)->Enemigo_1;
            let vida2 = celda(espec_detonar(g, x, y), ex, ey)->Enemigo_0;
            let golpes2 = celda(espec_detonar(g, x, y), ex, ey)->Enemigo_1;
            &&& golpes.subset_of(golpes2)
            &&& vida - vida2 == golpes2.difference(golpes).len()
            &&& (golpes2.subset_of(golpes.insert(o)) ==> vida - vida2 <= 1)
        }),
{
    ley_evolucion_detonar(g, x, y);
    let vida = celda(g, ex, ey)->Enemigo_0;
    let golpes = celda(g, ex, ey)->Enemigo_1;
    let golpes2 = celda(espec_detonar(g, x, y), ex, ey)->Enemigo_1;
    let d = golpes2.difference(golpes);
    assert(evolucion_celda(celda(g, ex, ey), celda(espec_detonar(g, x, y), ex, ey)));
    if golpes2.subset_of(golpes.insert(o)) {
        assert(d.subset_of(Set::<(int, int)>::empty().insert(o)));
        vstd::set_lib::lemma_len_subset(d, Set::<(int, int)>::empty().insert(o));
    }
}

/// Ley de independencia: dos orígenes distintos que golpean a un mismo
/// enemigo dentro de una misma cadena de detonaciones lo dañan una vez cada
/// uno: si ambos quedaron registrados como orígenes nuevos, el enemigo
/// perdió al menos dos puntos de vida.
pub proof fn ley_independencia(
    g: Seq<Seq<VistaObjeto>>,
    x: int,
    y: int,
    ex: int,
    ey: int,
    o1: (int, int),
    o2: (int, int),
)
    requires
        cuadrada(g),
        en_limites(g, ex, ey),
        celda(g, ex, ey) is Enemigo,
        celda(espec_detonar(g, x, y), ex, ey) is Enemigo,
        o1 != o2,
        !celda(g, ex, ey)->Enemigo_1.contains(o1),
        !celda(g, ex, ey)->Enemigo_1.contains(o2),
        celda(espec_detonar(g, x, y), ex, ey)->Enemigo_1.contains(o1),
        celda(espec_detonar(g, x, y), ex, ey)->Enemigo_1.contains(o2),
    ensures
        celda(g, ex, ey)->Enemigo_0 - celda(espec_detonar(g, x, y), ex, ey)->Enemigo_0 >= 2,
{
    ley_evolucion_detonar(g, x, y);
    let golpes = celda(g, ex, ey)->Enemigo_1;
    let golpes2 = celda(espec_detonar(g, x, y), ex, ey)->Enemigo_1;
    let d = golpes2.difference(golpes);
    assert(evolucion_celda(celda(g, ex, ey), celda(espec_detonar(g, x, y), ex, ey)));
    assert(d.contains(o1) && d.contains(o2));
    assert(Set::<(int, int)>::empty().insert(o1).insert(o2).subset_of(d));
    vstd::set_lib::lemma_len_subset(Set::<(int, int)>::empty().insert(o1).insert(o2), d);
    assert(Set::<(int, int)>::empty().insert(o1).insert(o2).len() == 2);
}

/// Ley de remoción: un enemigo solo desaparece si lo golpearon al menos
/// tantos orígenes nuevos distintos como vida tenía, y al menos uno. Un
/// único origen — aunque lo alcance por varios caminos — nunca elimina a un
/// enemigo con más de un punto de vida.
pub proof fn ley_remocion(g: Seq<Seq<VistaObjeto>>, x: int, y: int, ex: int, ey: int)
    requires
        cuadrada(g),
        en_limites(g, ex, ey),
        celda(g, ex, ey) is Enemigo,
        celda(espec_detonar(g, x, y), ex, ey) is Vacio,
    ensures
        remocion_valida(celda(g, ex, ey)->Enemigo_0, celda(g, ex, ey)->Enemigo_1),
{
    ley_evolucion_detonar(g, x, y);
    assert(evolucion_celda(celda(g, ex, ey), celda(espec_detonar(g, x, y), ex, ey)));
}

/// La posición a `k` pasos de `(x, y)` en la dirección `dir`.
pub open spec fn posicion_en(x: int, y: int, dir: Direccion, k: int) -> (int, int) {
    (x + dir.paso().0 * k, y + dir.paso().1 * k)
}

/// La posición `p` está dentro de la cuadrícula y su casilla está vacía.
pub open spec fn casilla_vacia(g: Seq<Seq<VistaObjeto>>, p: (int, int)) -> bool {
    en_limites(g, p.0, p.1) && celda(g, p.0, p.1) == VistaObjeto::Vacio
}

/// La onda atraviesa `s` casillas vacías sin cambiar nada: propagar desde
/// `(x, y)` equivale a propagar desde la posición `s` pasos más adelante,
/// con `s` menos de resto.
pub proof fn lema_atraviesa_vacio(
    g: Seq<Seq<VistaObjeto>>,
    origen: (int, int),
    x: int,
    y: int,
    dir: Direccion,
    resto: int,
    traspaso: bool,
    s: int,
)
    requires
        cuadrada(g),
        0 <= s <= resto,
        forall|k: int| 1 <= k <= s ==> casilla_vacia(g, #[trigger] posicion_en(x, y, dir, k)),
    ensures
        espec_propagar(g, origen, x, y, dir, resto, traspaso) == espec_propagar(
            g,
            origen,
            posicion_en(x, y, dir, s).0,
            posicion_en(x, y, dir, s).1,
            dir,
            resto - s,
            traspaso,
        ),
    decreases s,
{
    if s == 0 {
        assert(posicion_en(x, y, dir, 0) == (x, y));
    } else {
        let nx = x + dir.paso().0;
        let ny = y + dir.paso().1;
        assert(posicion_en(x, y, dir, 1) == (nx, ny));
        assert(casilla_vacia(g, posicion_en(x, y, dir, 1)));
        assert(espec_efecto(g, nx, ny, origen, traspaso) == (g, true));
        assert(podar(g, g) == g);
        assert(espec_propagar(g, origen, x, y, dir, resto, traspaso) == espec_propagar(
            g,
            origen,
            nx,
            ny,
            dir,
            resto - 1,
            traspaso,
        ));
        assert forall|k: int| 1 <= k <= s - 1 implies casilla_vacia(
            g,
            #[trigger] posicion_en(nx, ny, dir, k),
        ) by {
            lema_paso_lineal(dir, k);
            assert(posicion_en(nx, ny, dir, k) == posicion_en(x, y, dir, k + 1));
            assert(casilla_vacia(g, posicion_en(x, y, dir, k + 1)));
        }
        lema_atraviesa_vacio(g, origen, nx, ny, dir, resto - 1, traspaso, s - 1);
        lema_paso_lineal(dir, s - 1);
        assert(posicion_en(nx, ny, dir, s - 1) == posicion_en(x, y, dir, s));
    }
}

/// Ley del alcance cero: detonar una bomba de alcance cero solo vacía su
/// propia casilla; ninguna casilla vecina cambia.
pub proof fn ley_alcance_cero(g: Seq<Seq<VistaObjeto>>, x: int, y: int)
    requires
        cuadrada(g),
        en_limites(g, x, y),
        celda(g, x, y) is Bomba,
        celda(g, x, y)->Bomba_1 == 0,
    ensures
        espec_detonar(g, x, y) == poner(g, x, y, VistaObjeto::Vacio),
{
    let t = celda(g, x, y)->Bomba_0;
    let g1 = poner(g, x, y, VistaObjeto::Vacio);
    let origen = (x, y);
    assert(espec_propagar(g1, origen, x, y, Direccion::Arriba, 0, t) == g1);
    assert(podar(g1, g1) == g1);
    assert(espec_propagar(g1, origen, x, y, Direccion::Abajo, 0, t) == g1);
    assert(espec_propagar(g1, origen, x, y, Direccion::Izquierda, 0, t) == g1);
    assert(espec_propagar(g1, origen, x, y, Direccion::Derecha, 0, t) == g1);
    assert(espec_onda(g1, x, y, t, 0) == g1);
}

/// Ley del presupuesto del desvío: si la onda viaja con resto `resto` y tras
/// `s` pasos (`1 <= s <= resto`) sobre casillas vacías encuentra un desvío,
/// la propagación redirigida recibe exactamente `resto - s` de resto, desde
/// la posición del desvío y hacia su dirección.
pub proof fn ley_presupuesto_desvio(
    g: Seq<Seq<VistaObjeto>>,
    origen: (int, int),
    x: int,
    y: int,
    dir: Direccion,
    resto: int,
    traspaso: bool,
    s: int,
)
    requires
        cuadrada(g),
        1 <= s <= resto,
        forall|k: int| 1 <= k < s ==> casilla_vacia(g, #[trigger] posicion_en(x, y, dir, k)),
        en_limites(g, posicion_en(x, y, dir, s).0, posicion_en(x, y, dir, s).1),
        celda(g, posicion_en(x, y, dir, s).0, posicion_en(x, y, dir, s).1) is Desvio,
    ensures
        espec_propagar(g, origen, x, y, dir, resto, traspaso) == espec_propagar(
            g,
            origen,
            posicion_en(x, y, dir, s).0,
            posicion_en(x, y, dir, s).1,
            celda(g, posicion_en(x, y, dir, s).0, posicion_en(x, y, dir, s).1)->Desvio_0,
            resto - s,
            traspaso,
        ),
{
    lema_atraviesa_vacio(g, origen, x, y, dir, resto, traspaso, s - 1);
    let p = posicion_en(x, y, dir, s - 1);
    lema_paso_lineal(dir, s - 1);
    assert(posicion_en(x, y, dir, s) == (p.0 + dir.paso().0, p.1 + dir.paso().1));
}

/// Ley de la pared: una pared siempre detiene la onda en su posición, sea o
/// no de traspaso, y la cuadrícula no cambia en ese recorrido.
pub proof fn ley_pared_detiene(
    g: Seq<Seq<VistaObjeto>>,
    origen: (int, int),
    x: int,
    y: int,
    dir: Direccion,
    resto: int,
    traspaso: bool,
    s: int,
)
    requires
        cuadrada(g),
        1 <= s <= resto,
        forall|k: int| 1 <= k < s ==> casilla_vacia(g, #[trigger] posicion_en(x, y, dir, k)),
        en_limites(g, posicion_en(x, y, dir, s).0, posicion_en(x, y, dir, s).1),
        celda(g, posicion_en(x, y, dir, s).0, posicion_en(x, y, dir, s).1) == VistaObjeto::Pared,
    ensures
        espec_propagar(g, origen, x, y, dir, resto, traspaso) == g,
{
    lema_atraviesa_vacio(g, origen, x, y, dir, resto, traspaso, s - 1);
    let p = posicion_en(x, y, dir, s - 1);
    let q = posicion_en(x, y, dir, s);
    lema_paso_lineal(dir, s - 1);
    assert(q == (p.0 + dir.paso().0, p.1 + dir.paso().1));
    assert(espec_efecto(g, q.0, q.1, origen, traspaso) == (g, false));
}

/// Ley de la roca sin traspaso: una roca detiene la onda de una bomba común
/// en su posición, y la cuadrícula no cambia en ese recorrido.
pub proof fn ley_roca_detiene(
    g: Seq<Seq<VistaObjeto>>,
    origen: (int, int),
    x: int,
    y: int,
    dir: Direccion,
    resto: int,
    s: int,
)
    requires
        cuadrada(g),
        1 <= s <= resto,
        forall|k: int| 1 <= k < s ==> casilla_vacia(g, #[trigger] posicion_en(x, y, dir, k)),
        en_limites(g, posicion_en(x, y, dir, s).0, posicion_en(x, y, dir, s).1),
        celda(g, posicion_en(x, y, dir, s).0, posicion_en(x, y, dir, s).1) == VistaObjeto::Roca,
    ensures
        espec_propagar(g, origen, x, y, dir, resto, false) == g,
{
    lema_atraviesa_vacio(g, origen, x, y, dir, resto, false, s - 1);
    let p = posicion_en(x, y, dir, s - 1);
    let q = posicion_en(x, y, dir, s);
    lema_paso_lineal(dir, s - 1);
    assert(q == (p.0 + dir.paso().0, p.1 + dir.paso().1));
    assert(espec_efecto(g, q.0, q.1, origen, false) == (g, false));
}

/// Ley de la roca con traspaso: la onda de una bomba de traspaso atraviesa
/// la roca — la propagación continúa más allá con el resto descontado — y la
/// roca queda intacta.
pub proof fn ley_roca_traspaso(
    g: Seq<Seq<VistaObjeto>>,
    origen: (int, int),
    x: int,
    y: int,
    dir: Direccion,
    resto: int,
    s: int,
)
    requires
        cuadrada(g),
        1 <= s <= resto,
        forall|k: int| 1 <= k < s ==> casilla_vacia(g, #[trigger] posicion_en(x, y, dir, k)),
        en_limites(g, posicion_en(x, y, dir, s).0, posicion_en(x, y, dir, s).1),
        celda(g, posicion_en(x, y, dir, s).0, posicion_en(x, y, dir, s).1) == VistaObjeto::Roca,
    ensures
        espec_propagar(g, origen, x, y, dir, resto, true) == espec_propagar(
            g,
            origen,
            posicion_en(x, y, dir, s).0,
            posicion_en(x, y, dir, s).1,
            dir,
            resto - s,
            true,
        ),
        celda(
            espec_propagar(g, origen, x, y, dir, resto, true),
            posicion_en(x, y, dir, s).0,
            posicion_en(x, y, dir, s).1,
        ) == VistaObjeto::Roca,
{
    lema_atraviesa_vacio(g, origen, x, y, dir, resto, true, s - 1);
    let p = posicion_en(x, y, dir, s - 1);
    let q = posicion_en(x, y, dir, s);
    lema_paso_lineal(dir, s - 1);
    assert(q == (p.0 + dir.paso().0, p.1 + dir.paso().1));
    assert(espec_efecto(g, q.0, q.1, origen, true) == (g, true));
    assert(podar(g, g) == g);
    lema_evolucion_propagar(g, origen, x, y, dir, resto, true);
    assert(evolucion_celda(
        celda(g, q.0, q.1),
        celda(espec_propagar(g, origen, x, y, dir, resto, true), q.0, q.1),
    ));
}

/// Ley de disipación: si la onda solo recorre casillas vacías hasta agotar
/// el alcance o salir de la cuadrícula, no cambia nada: la onda se disipa
/// sin error y sin mutación.
pub proof fn ley_disipacion(
    g: Seq<Seq<VistaObjeto>>,
    origen: (int, int),
    x: int,
    y: int,
    dir: Direccion,
    resto: int,
    traspaso: bool,
    s: int,
)
    requires
        cuadrada(g),
        0 <= s <= resto,
        forall|k: int| 1 <= k <= s ==> casilla_vacia(g, #[trigger] posicion_en(x, y, dir, k)),
        s == resto || !en_limites(
            g,
            posicion_en(x, y, dir, s + 1).0,
            posicion_en(x, y, dir, s + 1).1,
        ),
    ensures
        espec_propagar(g, origen, x, y, dir, resto, traspaso) == g,
{
    lema_atraviesa_vacio(g, origen, x, y, dir, resto, traspaso, s);
    if s != resto {
        let p = posicion_en(x, y, dir, s);
        lema_paso_lineal(dir, s);
        assert(posicion_en(x, y, dir, s + 1) == (p.0 + dir.paso().0, p.1 + dir.paso().1));
    }
}

} // verus!
