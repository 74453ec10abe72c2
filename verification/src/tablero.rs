//! El tablero del juego y el motor de detonación ejecutable.

use vstd::prelude::*;
use crate::direccion::{lema_paso_lineal, Direccion};
use crate::objeto::{conjunto_golpes, contiene_golpe, lema_golpes_insertar, Objeto, VistaObjeto};
use crate::semantica::{
    bombas, celda, cuadrada, en_limites, espec_detonar, espec_efecto, espec_onda, espec_propagar,
    lema_bombas_efecto, lema_bombas_poner, lema_bombas_propagar, lema_poner_forma,
    lema_poner_identico, lema_poner_poner, podar, poner,
};

verus! {

/// Un tablero cuadrado de objetos. La cuadrícula es una lista de filas;
/// `cuadricula[y][x]` es la casilla de la columna `x` y la fila `y`.
pub struct Tablero {
    /// Las filas del tablero.
    pub cuadricula: Vec<Vec<Objeto>>,
    /// El lado del tablero.
    pub tamano: i32,
}

/// El mensaje de error de [`Tablero::detonar`] cuando la casilla pedida no
/// tiene una bomba.
pub open spec fn mensaje_no_es_bomba() -> Seq<char> {
    "ERROR: No es una bomba, no se puede detonar."@
}

impl View for Tablero {
    type V = Seq<Seq<VistaObjeto>>;

    open spec fn view(&self) -> Seq<Seq<VistaObjeto>> {
        self.cuadricula@.map_values(|fila: Vec<Objeto>| fila@.map_values(|o: Objeto| o@))
    }
}

impl Tablero {
    /// El tablero está bien formado: es cuadrado y su lado es `tamano`.
    pub open spec fn bien_formado(&self) -> bool {
        &&& self.tamano >= 0
        &&& self@.len() == self.tamano as int
        &&& cuadrada(self@)
    }

    /// Crea un tablero del tamaño dado, todavía sin filas; quien lo
    /// construye debe cargar `tamano` filas de `tamano` casillas.
    pub fn new(tamano: i32) -> (t: Tablero)
        ensures
            t.tamano == tamano,
            t.cuadricula@ == Seq::<Vec<Objeto>>::empty(),
            t@ == Seq::<Seq<VistaObjeto>>::empty(),
    {
        let cuadricula = Vec::new();
        let t = Tablero { cuadricula, tamano };
        proof {
            assert(t@ =~= Seq::<Seq<VistaObjeto>>::empty());
        }
        t
    }

    /// La casilla en `(x, y)`, o `None` si la posición queda fuera del
    /// tablero. La ausencia es la única señal de fuera de límites: nunca
    /// entra en pánico.
    pub fn obtener_objeto_en_posicion(&self, x: usize, y: usize) -> (r: Option<&Objeto>)
        requires
            self.bien_formado(),
        ensures
            match r {
                Some(o) => en_limites(self@, x as int, y as int) && o@ == celda(
                    self@,
                    x as int,
                    y as int,
                ),
                None => !en_limites(self@, x as int, y as int),
            },
    {
        if y < self.tamano as usize && x < self.tamano as usize {
            proof {
                assert(self@[y as int].len() == self@.len());
            }
            Some(&self.cuadricula[y][x])
        } else {
            None
        }
    }

    /// Detona la bomba en `(x, y)`: vacía su casilla y propaga la onda
    /// expansiva en las cuatro direcciones, con `(x, y)` como origen del
    /// evento y el alcance de la bomba como presupuesto de cada dirección.
    /// El resultado es exactamente [`espec_detonar`] sobre la vista del
    /// tablero. Si la casilla no tiene una bomba, o la posición queda fuera
    /// del tablero, devuelve un error y no cambia nada.
    pub fn detonar(&mut self, x: i32, y: i32) -> (r: Result<(), String>)
        requires
            old(self).bien_formado(),
        ensures
            final(self).bien_formado(),
            final(self).tamano == old(self).tamano,
            final(self)@ == espec_detonar(old(self)@, x as int, y as int),
            r is Ok <==> (en_limites(old(self)@, x as int, y as int) && celda(
                old(self)@,
                x as int,
                y as int,
            ) is Bomba),
            r is Err ==> *final(self) == *old(self) && (r->Err_0)@ == mensaje_no_es_bomba(),
        decreases bombas(old(self)@), 0int, 0int,
    {
        let ghost g0 = self@;
        if x < 0 || y < 0 || x >= self.tamano || y >= self.tamano {
            return Err("ERROR: No es una bomba, no se puede detonar.".to_owned());
        }
        let x_usize = x as usize;
        let y_usize = y as usize;
        proof {
            assert(g0[y as int].len() == g0.len());
            assert(celda(g0, x as int, y as int) == self.cuadricula@[y as int]@[x as int]@);
        }
        match &self.cuadricula[y_usize][x_usize] {
            Objeto::Bomba(traspaso, alcance) => {
                let t = *traspaso;
                let a = *alcance;
                let ghost origen = (x as int, y as int);
                self.cuadricula[y_usize][x_usize] = Objeto::Vacio;
                let ghost g1 = self@;
                proof {
                    assert(g1 =~~= poner(g0, x as int, y as int, VistaObjeto::Vacio));
                    lema_poner_forma(g0, x as int, y as int, VistaObjeto::Vacio);
                    lema_bombas_poner(g0, x as int, y as int, VistaObjeto::Vacio);
                }
                self.detonar_en_direccion((x, y, x_usize, y_usize, t), Direccion::Arriba, a);
                let ghost ga = self@;
                proof {
                    lema_bombas_propagar(g1, origen, x as int, y as int, Direccion::Arriba, a as int, t);
                    assert(podar(ga, g1) == ga);
                }
                self.detonar_en_direccion((x, y, x_usize, y_usize, t), Direccion::Abajo, a);
                let ghost gb = self@;
                proof {
                    lema_bombas_propagar(ga, origen, x as int, y as int, Direccion::Abajo, a as int, t);
                    assert(podar(gb, g1) == gb);
                }
                self.detonar_en_direccion((x, y, x_usize, y_usize, t), Direccion::Izquierda, a);
                let ghost gi = self@;
                proof {
                    lema_bombas_propagar(gb, origen, x as int, y as int, Direccion::Izquierda, a as int, t);
                    assert(podar(gi, g1) == gi);
                }
                self.detonar_en_direccion((x, y, x_usize, y_usize, t), Direccion::Derecha, a);
                proof {
                    lema_bombas_propagar(gi, origen, x as int, y as int, Direccion::Derecha, a as int, t);
                    assert(self@ == espec_onda(g1, x as int, y as int, t, a as int));
                    assert(self@ == espec_detonar(g0, x as int, y as int));
                }
                Ok(())
            },
            _ => Err("ERROR: No es una bomba, no se puede detonar.".to_owned()),
        }
    }

    /// Propaga la onda expansiva en una dirección: avanza paso a paso desde
    /// la posición `(args.2, args.3)` aplicando el efecto a cada casilla,
    /// con `(args.0, args.1)` como origen del evento y `args.4` como
    /// traspaso. Produce exactamente [`espec_propagar`].
    pub fn detonar_en_direccion(
        &mut self,
        args: (i32, i32, usize, usize, bool),
        direccion: Direccion,
        alcance: i32,
    )
        requires
            old(self).bien_formado(),
            args.2 < old(self)@.len(),
            args.3 < old(self)@.len(),
        ensures
            final(self).bien_formado(),
            final(self).tamano == old(self).tamano,
            bombas(final(self)@) <= bombas(old(self)@),
            final(self)@ == espec_propagar(
                old(self)@,
                (args.0 as int, args.1 as int),
                args.2 as int,
                args.3 as int,
                direccion,
                alcance as int,
                args.4,
            ),
        decreases bombas(old(self)@), 1int, (if alcance >= 0 { alcance as int } else { 0int }),
    {
        let (x, y, x_usize, y_usize, traspaso) = args;
        let ghost g0 = self@;
        let ghost origen = (x as int, y as int);
        let ghost tam0 = self.tamano;
        let ghost total = espec_propagar(
            g0,
            origen,
            x_usize as int,
            y_usize as int,
            direccion,
            alcance as int,
            traspaso,
        );
        let mut i: i32 = 0;
        let mut seguir_detonando = true;
        #[verifier::loop_isolation(false)]
        while i < alcance && seguir_detonando
            invariant
                0 <= i,
                i <= alcance || i == 0,
                self.bien_formado(),
                self.tamano == tam0,
                g0.len() == self@.len(),
                g0.len() < 0x8000_0000,
                x_usize < g0.len(),
                y_usize < g0.len(),
                bombas(self@) <= bombas(g0),
                total == espec_propagar(
                    g0,
                    origen,
                    x_usize as int,
                    y_usize as int,
                    direccion,
                    alcance as int,
                    traspaso,
                ),
                seguir_detonando ==> total == espec_propagar(
                    self@,
                    origen,
                    x_usize + direccion.paso().0 * i,
                    y_usize + direccion.paso().1 * i,
                    direccion,
                    alcance - i,
                    traspaso,
                ),
                !seguir_detonando ==> total == self@,
            decreases alcance - i,
        {
            let paso = i + 1;
            let ghost g_pre = self@;
            let ghost px = x_usize + direccion.paso().0 * i;
            let ghost py = y_usize + direccion.paso().1 * i;
            let ghost nx = x_usize + direccion.paso().0 * paso;
            let ghost ny = y_usize + direccion.paso().1 * paso;
            proof {
                lema_paso_lineal(direccion, i as int);
                assert(nx == px + direccion.paso().0);
                assert(ny == py + direccion.paso().1);
            }
            match Self::calcular_nueva_posicion(x_usize, y_usize, direccion, paso) {
                Some(par) => {
                    let (nuevo_x, nuevo_y) = par;
                    if nuevo_x < self.tamano as usize && nuevo_y < self.tamano as usize {
                        proof {
                            assert(en_limites(g_pre, nx, ny));
                            assert(g_pre[ny].len() == g_pre.len());
                            assert(celda(g_pre, nx, ny)
                                == self.cuadricula@[ny]@[nx]@);
                        }
                        match &self.cuadricula[nuevo_y][nuevo_x] {
                            Objeto::Desvio(dir) => {
                                let d2 = *dir;
                                self.detonar_en_direccion(
                                    (x, y, nuevo_x, nuevo_y, traspaso),
                                    d2,
                                    alcance - paso,
                                );
                                seguir_detonando = false;
                                proof {
                                    lema_bombas_propagar(
                                        g_pre,
                                        origen,
                                        nx,
                                        ny,
                                        d2,
                                        alcance - paso,
                                        traspaso,
                                    );
                                    assert(total == self@);
                                }
                            },
                            _ => {
                                seguir_detonando = self.detonar_en_posicion(
                                    nuevo_x,
                                    nuevo_y,
                                    traspaso,
                                    x,
                                    y,
                                );
                                proof {
                                    lema_bombas_efecto(g_pre, nx, ny, origen, traspaso);
                                    let resultado = espec_efecto(g_pre, nx, ny, origen, traspaso);
                                    assert(podar(resultado.0, g_pre) == resultado.0);
                                    if seguir_detonando {
                                        assert(total == espec_propagar(
                                            self@,
                                            origen,
                                            nx,
                                            ny,
                                            direccion,
                                            alcance - paso,
                                            traspaso,
                                        ));
                                    } else {
                                        assert(total == self@);
                                    }
                                }
                            },
                        }
                    } else {
                        seguir_detonando = false;
                        proof {
                            assert(!en_limites(g_pre, nx, ny));
                            assert(total == self@);
                        }
                    }
                },
                None => {
                    seguir_detonando = false;
                    proof {
                        assert(!en_limites(g_pre, nx, ny));
                        assert(total == self@);
                    }
                },
            }
            i = paso;
        }
        proof {
            if seguir_detonando {
                assert(total == self@);
            }
        }
    }

    /// Aplica el efecto de la onda expansiva a la casilla `(x, y)` y dice si
    /// la onda sigue avanzando. El origen del evento es
    /// `(x_original, y_original)`. Produce exactamente [`espec_efecto`].
    pub fn detonar_en_posicion(
        &mut self,
        x: usize,
        y: usize,
        traspaso: bool,
        x_original: i32,
        y_original: i32,
    ) -> (seguir: bool)
        requires
            old(self).bien_formado(),
            x < old(self)@.len(),
            y < old(self)@.len(),
        ensures
            final(self).bien_formado(),
            final(self).tamano == old(self).tamano,
            final(self)@ == espec_efecto(
                old(self)@,
                x as int,
                y as int,
                (x_original as int, y_original as int),
                traspaso,
            ).0,
            seguir == espec_efecto(
                old(self)@,
                x as int,
                y as int,
                (x_original as int, y_original as int),
                traspaso,
            ).1,
        decreases bombas(old(self)@), 0int, 1int,
    {
        let ghost g0 = self@;
        let ghost origen = (x_original as int, y_original as int);
        proof {
            assert(g0[y as int].len() == g0.len());
            assert(celda(g0, x as int, y as int) == self.cuadricula@[y as int]@[x as int]@);
        }
        match &self.cuadricula[y][x] {
            Objeto::Enemigo(_, _) => {
                let mut tmp = Objeto::Vacio;
                core::mem::swap(&mut self.cuadricula[y][x], &mut tmp);
                proof {
                    assert(self@ =~~= poner(g0, x as int, y as int, VistaObjeto::Vacio));
                    lema_poner_forma(g0, x as int, y as int, VistaObjeto::Vacio);
                }
                match tmp {
                    Objeto::Enemigo(vida, mut golpes) => {
                        let ghost golpes0 = golpes@;
                        if contiene_golpe(&golpes, x_original, y_original) {
                            self.cuadricula[y][x] = Objeto::Enemigo(vida, golpes);
                            proof {
                                let v = VistaObjeto::Enemigo(vida as int, conjunto_golpes(golpes0));
                                assert(self@ =~~= poner(
                                    poner(g0, x as int, y as int, VistaObjeto::Vacio),
                                    x as int,
                                    y as int,
                                    v,
                                ));
                                lema_poner_poner(g0, x as int, y as int, VistaObjeto::Vacio, v);
                                lema_poner_identico(g0, x as int, y as int);
                            }
                            true
                        } else if vida > 1 {
                            golpes.push((x_original, y_original));
                            self.cuadricula[y][x] = Objeto::Enemigo(vida - 1, golpes);
                            proof {
                                lema_golpes_insertar(golpes0, (x_original, y_original));
                                let v = VistaObjeto::Enemigo(
                                    vida - 1,
                                    conjunto_golpes(golpes0).insert(origen),
                                );
                                assert(self@ =~~= poner(
                                    poner(g0, x as int, y as int, VistaObjeto::Vacio),
                                    x as int,
                                    y as int,
                                    v,
                                ));
                                lema_poner_poner(g0, x as int, y as int, VistaObjeto::Vacio, v);
                            }
                            true
                        } else {
                            true
                        }
                    },
                    // La casilla recién extraída era un enemigo: esta rama es
                    // inalcanzable, y la contradicción lo demuestra.
                    _ => {
                        proof {
                            assert(false);
                        }
                        true
                    },
                }
            },
            Objeto::Bomba(_, _) => {
                let _resultado = self.detonar(x as i32, y as i32);
                proof {
                    lema_bombas_poner(g0, x as int, y as int, VistaObjeto::Vacio);
                }
                true
            },
            Objeto::Roca => traspaso,
            Objeto::Pared => false,
            Objeto::Desvio(_) => true,
            Objeto::Vacio => true,
        }
    }

    /// La posición a `paso` casillas de `(x_usize, y_usize)` en la dirección
    /// dada, o `None` si queda antes del borde izquierdo o superior.
    fn calcular_nueva_posicion(
        x_usize: usize,
        y_usize: usize,
        direccion: Direccion,
        paso: i32,
    ) -> (r: Option<(usize, usize)>)
        requires
            1 <= paso,
            x_usize < 0x8000_0000,
            y_usize < 0x8000_0000,
        ensures
            ({
                let d = direccion.paso();
                let nx = x_usize + d.0 * paso;
                let ny = y_usize + d.1 * paso;
                match r {
                    Some(q) => q.0 == nx && q.1 == ny,
                    None => nx < 0 || ny < 0,
                }
            }),
    {
        let paso_usize = paso as usize;
        match direccion {
            Direccion::Arriba => {
                if paso_usize <= y_usize {
                    Some((x_usize, y_usize - paso_usize))
                } else {
                    None
                }
            },
            Direccion::Abajo => Some((x_usize, y_usize + paso_usize)),
            Direccion::Derecha => Some((x_usize + paso_usize, y_usize)),
            Direccion::Izquierda => {
                if paso_usize <= x_usize {
                    Some((x_usize - paso_usize, y_usize))
                } else {
                    None
                }
            },
        }
    }
}

} // verus!
