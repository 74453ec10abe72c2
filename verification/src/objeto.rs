//! Los objetos que puede contener una casilla del tablero, y su vista
//! matemática.

use vstd::prelude::*;
use crate::direccion::Direccion;

verus! {

/// Un objeto del tablero. Cada casilla contiene exactamente un objeto.
#[derive(Debug)]
pub enum Objeto {
    /// Un enemigo con su vida y la lista de orígenes de detonación que ya lo
    /// golpearon. La lista representa un conjunto: una misma detonación nunca
    /// daña dos veces al mismo enemigo, aunque lo alcance por varios caminos.
    Enemigo(i32, Vec<(i32, i32)>),
    /// Una bomba: si es de traspaso (atraviesa rocas) y su alcance.
    Bomba(bool, i32),
    /// Una roca: bloquea la onda salvo que la bomba sea de traspaso.
    Roca,
    /// Una pared: bloquea la onda siempre.
    Pared,
    /// Un desvío: redirige la onda hacia la dirección indicada.
    Desvio(Direccion),
    /// Una casilla vacía.
    Vacio,
}

/// La vista matemática de un [`Objeto`]: los enteros son ilimitados y la
/// lista de golpes se abstrae como el conjunto de orígenes que contiene.
pub enum VistaObjeto {
    /// Enemigo: vida y conjunto de orígenes que ya lo golpearon.
    Enemigo(int, Set<(int, int)>),
    /// Bomba: traspaso y alcance.
    Bomba(bool, int),
    /// Roca.
    Roca,
    /// Pared.
    Pared,
    /// Desvío hacia una dirección.
    Desvio(Direccion),
    /// Casilla vacía.
    Vacio,
}

/// El conjunto de orígenes representado por una lista de golpes.
pub open spec fn conjunto_golpes(golpes: Seq<(i32, i32)>) -> Set<(int, int)> {
    golpes.map_values(|g: (i32, i32)| (g.0 as int, g.1 as int)).to_set()
}

impl View for Objeto {
    type V = VistaObjeto;

    open spec fn view(&self) -> VistaObjeto {
        match self {
            Objeto::Enemigo(vida, golpes) => VistaObjeto::Enemigo(
                *vida as int,
                conjunto_golpes(golpes@),
            ),
            Objeto::Bomba(traspaso, alcance) => VistaObjeto::Bomba(*traspaso, *alcance as int),
            Objeto::Roca => VistaObjeto::Roca,
            Objeto::Pared => VistaObjeto::Pared,
            Objeto::Desvio(d) => VistaObjeto::Desvio(*d),
            Objeto::Vacio => VistaObjeto::Vacio,
        }
    }
}

/// Pertenencia al conjunto de una lista de golpes, en términos de la lista.
pub broadcast proof fn lema_golpes_contiene(golpes: Seq<(i32, i32)>, p: (int, int))
    ensures
        #[trigger] conjunto_golpes(golpes).contains(p) <==> exists|i: int|
            0 <= i < golpes.len() && (#[trigger] golpes[i]).0 == p.0 && golpes[i].1 == p.1,
{
    let f = |g: (i32, i32)| (g.0 as int, g.1 as int);
    if conjunto_golpes(golpes).contains(p) {
        let g = choose|g: (i32, i32)| golpes.map_values(f).contains(f(g)) && f(g) == p
            && golpes.contains(g);
        assert(golpes.map_values(f).contains(p));
        let i = choose|i: int| 0 <= i < golpes.map_values(f).len() && golpes.map_values(f)[i] == p;
        assert(golpes[i].0 == p.0 && golpes[i].1 == p.1);
    }
    if exists|i: int|
        0 <= i < golpes.len() && (#[trigger] golpes[i]).0 == p.0 && golpes[i].1 == p.1 {
        let i = choose|i: int|
            0 <= i < golpes.len() && (#[trigger] golpes[i]).0 == p.0 && golpes[i].1 == p.1;
        assert(golpes.map_values(f)[i] == p);
        assert(golpes.map_values(f).contains(p));
    }
}

/// Agregar un golpe a la lista corresponde a insertar su origen en el
/// conjunto.
pub proof fn lema_golpes_insertar(golpes: Seq<(i32, i32)>, g: (i32, i32))
    ensures
        conjunto_golpes(golpes.push(g)) == conjunto_golpes(golpes).insert(
            (g.0 as int, g.1 as int),
        ),
{
    let p = (g.0 as int, g.1 as int);
    assert forall|q: (int, int)| conjunto_golpes(golpes.push(g)).contains(q)
        <==> conjunto_golpes(golpes).insert(p).contains(q) by {
        lema_golpes_contiene(golpes.push(g), q);
        lema_golpes_contiene(golpes, q);
        if conjunto_golpes(golpes).insert(p).contains(q) {
            if q == p {
                assert(golpes.push(g)[golpes.len() as int] == g);
            } else {
                let i = choose|i: int|
                    0 <= i < golpes.len() && (#[trigger] golpes[i]).0 == q.0
                        && golpes[i].1 == q.1;
                assert(golpes.push(g)[i] == golpes[i]);
            }
        }
        if conjunto_golpes(golpes.push(g)).contains(q) {
            let i = choose|i: int|
                0 <= i < golpes.push(g).len() && (#[trigger] golpes.push(g)[i]).0 == q.0
                    && golpes.push(g)[i].1 == q.1;
            if i < golpes.len() {
                assert(golpes[i] == golpes.push(g)[i]);
            }
        }
    }
    assert(conjunto_golpes(golpes.push(g)) =~= conjunto_golpes(golpes).insert(p));
}

/// Busca un origen en la lista de golpes de un enemigo.
pub fn contiene_golpe(golpes: &Vec<(i32, i32)>, x: i32, y: i32) -> (r: bool)
    ensures
        r == conjunto_golpes(golpes@).contains((x as int, y as int)),
{
    proof {
        lema_golpes_contiene(golpes@, (x as int, y as int));
    }
    let mut i: usize = 0;
    while i < golpes.len()
        invariant
            0 <= i <= golpes@.len(),
            forall|j: int| 0 <= j < i ==> !((#[trigger] golpes@[j]).0 == x && golpes@[j].1 == y),
        decreases golpes@.len() - i,
    {
        let (gx, gy) = golpes[i];
        if gx == x && gy == y {
            proof {
                lema_golpes_contiene(golpes@, (x as int, y as int));
            }
            return true;
        }
        i += 1;
    }
    proof {
        lema_golpes_contiene(golpes@, (x as int, y as int));
    }
    false
}

impl PartialEq for Objeto {
    fn eq(&self, otro: &Objeto) -> (r: bool) {
        match (self, otro) {
            (Objeto::Enemigo(v1, g1), Objeto::Enemigo(v2, g2)) => {
                *v1 == *v2 && iguales_golpes(g1, g2)
            },
            (Objeto::Bomba(t1, a1), Objeto::Bomba(t2, a2)) => *t1 == *t2 && *a1 == *a2,
            (Objeto::Roca, Objeto::Roca) => true,
            (Objeto::Pared, Objeto::Pared) => true,
            (Objeto::Desvio(d1), Objeto::Desvio(d2)) => *d1 == *d2,
            (Objeto::Vacio, Objeto::Vacio) => true,
            _ => false,
        }
    }
}

impl vstd::std_specs::cmp::PartialEqSpecImpl for Objeto {
    open spec fn obeys_eq_spec() -> bool {
        true
    }

    open spec fn eq_spec(&self, otro: &Objeto) -> bool {
        match (self, otro) {
            (Objeto::Enemigo(v1, g1), Objeto::Enemigo(v2, g2)) => v1 == v2 && g1@ == g2@,
            (Objeto::Bomba(t1, a1), Objeto::Bomba(t2, a2)) => t1 == t2 && a1 == a2,
            (Objeto::Roca, Objeto::Roca) => true,
            (Objeto::Pared, Objeto::Pared) => true,
            (Objeto::Desvio(d1), Objeto::Desvio(d2)) => d1 == d2,
            (Objeto::Vacio, Objeto::Vacio) => true,
            _ => false,
        }
    }
}

/// Compara dos listas de golpes elemento a elemento.
fn iguales_golpes(a: &Vec<(i32, i32)>, b: &Vec<(i32, i32)>) -> (r: bool)
    ensures
        r == (a@ == b@),
{
    if a.len() != b.len() {
        proof {
            assert(a@.len() != b@.len());
        }
        return false;
    }
    let mut i: usize = 0;
    while i < a.len()
        invariant
            0 <= i <= a@.len(),
            a@.len() == b@.len(),
            forall|j: int| 0 <= j < i ==> a@[j] == b@[j],
        decreases a@.len() - i,
    {
        let (ax, ay) = a[i];
        let (bx, by) = b[i];
        if ax != bx || ay != by {
            proof {
                assert(a@[i as int] != b@[i as int]);
            }
            return false;
        }
        i += 1;
    }
    proof {
        assert(a@ =~= b@);
    }
    true
}

} // verus!
