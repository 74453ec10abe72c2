//! El códec textual del tablero: de símbolos a objetos y de vuelta, y el
//! análisis de números enteros de las coordenadas y los alcances.

use vstd::prelude::*;
use vstd::string::StrSliceExecFns;
use vstd::string::StringExecFns;
use crate::direccion::Direccion;
use crate::objeto::{conjunto_golpes, Objeto, VistaObjeto};
use crate::semantica::cuadrada;
use crate::tablero::Tablero;

verus! {

/// El carácter es un dígito decimal.
pub open spec fn es_digito(c: char) -> bool {
    48 <= c as int <= 57
}

/// El valor numérico de un dígito decimal.
pub open spec fn valor_digito(c: char) -> int {
    c as int - 48
}

/// Todos los caracteres son dígitos decimales.
pub open spec fn todos_digitos(s: Seq<char>) -> bool {
    forall|i: int| 0 <= i < s.len() ==> es_digito(#[trigger] s[i])
}

/// El valor de una secuencia de dígitos decimales, del más significativo al
/// menos significativo.
pub open spec fn valor_decimal(s: Seq<char>) -> int
    decreases s.len(),
{
    if s.len() == 0 {
        0
    } else {
        valor_decimal(s.drop_last()) * 10 + valor_digito(s.last())
    }
}

/// Los dígitos del número, sin el signo si lo hay.
pub open spec fn cuerpo_entero(s: Seq<char>) -> Seq<char> {
    if s.len() > 0 && (s[0] == '+' || s[0] == '-') {
        s.subrange(1, s.len() as int)
    } else {
        s
    }
}

/// El signo del número: `-1` si empieza con `'-'`, `1` si no.
pub open spec fn signo_entero(s: Seq<char>) -> int {
    if s.len() > 0 && s[0] == '-' {
        -1
    } else {
        1
    }
}

/// El texto es un entero decimal: un signo opcional seguido de al menos un
/// dígito.
pub open spec fn es_entero(s: Seq<char>) -> bool {
    cuerpo_entero(s).len() > 0 && todos_digitos(cuerpo_entero(s))
}

/// El valor del entero decimal que el texto representa.
pub open spec fn valor_entero(s: Seq<char>) -> int {
    signo_entero(s) * valor_decimal(cuerpo_entero(s))
}

/// Una secuencia de dígitos vale al menos cero.
proof fn lema_decimal_no_negativo(s: Seq<char>)
    requires
        todos_digitos(s),
    ensures
        valor_decimal(s) >= 0,
    decreases s.len(),
{
    if s.len() > 0 {
        assert(todos_digitos(s.drop_last())) by {
            assert(forall|i: int|
                0 <= i < s.len() - 1 ==> s.drop_last()[i] == #[trigger] s[i]);
        }
        lema_decimal_no_negativo(s.drop_last());
    }
}

/// Analiza un entero decimal con signo, como texto. Devuelve `Some` con su
/// valor exactamente cuando el texto es un entero que cabe en un `i32`.
pub fn parsear_i32(s: &str) -> (r: Option<i32>)
    ensures
        match r {
            Some(v) => es_entero(s@) && i32::MIN <= valor_entero(s@) <= i32::MAX && v == valor_entero(s@),
            None => !(es_entero(s@) && i32::MIN <= valor_entero(s@) <= i32::MAX),
        },
{
    let largo = s.unicode_len();
    if largo == 0 {
        return None;
    }
    let primero = s.get_char(0);
    let negativo = primero == '-';
    let inicio: usize = if primero == '-' || primero == '+' {
        1
    } else {
        0
    };
    let ghost cuerpo = cuerpo_entero(s@);
    proof {
        assert(cuerpo =~= s@.subrange(inicio as int, largo as int));
    }
    if largo == inicio {
        return None;
    }
    let limite: i64 = if negativo {
        2147483648
    } else {
        2147483647
    };
    let mut acumulador: i64 = 0;
    let mut desbordado = false;
    let mut i: usize = inicio;
    while i < largo
        invariant
            inicio <= i <= largo,
            largo == s@.len(),
            inicio <= 1,
            cuerpo == s@.subrange(inicio as int, largo as int),
            cuerpo == cuerpo_entero(s@),
            negativo == (signo_entero(s@) == -1),
            limite == if negativo { 2147483648int } else { 2147483647int },
            todos_digitos(cuerpo.subrange(0, i - inicio)),
            !desbordado ==> 0 <= acumulador <= limite && acumulador == valor_decimal(
                cuerpo.subrange(0, i - inicio),
            ),
            desbordado ==> valor_decimal(cuerpo.subrange(0, i - inicio)) > limite,
        decreases largo - i,
    {
        let c = s.get_char(i);
        let codigo = c as u32;
        let ghost prefijo = cuerpo.subrange(0, i - inicio);
        let ghost prefijo2 = cuerpo.subrange(0, i + 1 - inicio);
        proof {
            assert(prefijo2.drop_last() =~= prefijo);
            assert(prefijo2.last() == s@[i as int]);
            assert(forall|k: int|
                0 <= k < prefijo2.len() - 1 ==> prefijo2[k] == #[trigger] prefijo[k]);
        }
        if codigo < 48 || codigo > 57 {
            proof {
                assert(!es_digito(s@[i as int]));
                assert(cuerpo[i - inicio] == s@[i as int]);
                assert(!todos_digitos(cuerpo));
                assert(!es_entero(s@));
            }
            return None;
        }
        let digito = (codigo - 48) as i64;
        if desbordado {
            proof {
                lema_decimal_no_negativo(prefijo);
                assert(valor_decimal(prefijo2) == valor_decimal(prefijo) * 10 + valor_digito(
                    s@[i as int],
                ));
                assert(valor_decimal(prefijo) * 10 > limite * 10) by (nonlinear_arith)
                    requires
                        valor_decimal(prefijo) > limite,
                        limite > 0,
                ;
            }
        } else {
            let nuevo = acumulador * 10 + digito;
            if nuevo > limite {
                desbordado = true;
            } else {
                acumulador = nuevo;
            }
            proof {
                assert(valor_decimal(prefijo2) == valor_decimal(prefijo) * 10 + valor_digito(
                    s@[i as int],
                ));
            }
        }
        i += 1;
    }
    proof {
        assert(cuerpo.subrange(0, (largo - inicio) as int) =~= cuerpo);
    }
    if desbordado {
        proof {
            lema_decimal_no_negativo(cuerpo);
        }
        return None;
    }
    if negativo {
        let valor = -acumulador;
        Some(valor as i32)
    } else {
        Some(acumulador as i32)
    }
}

/// El mensaje de error de [`parse_coordenadas`] para la coordenada nombrada.
pub open spec fn mensaje_coordenada(nombre: Seq<char>) -> Seq<char> {
    "ERROR: La coordenada "@ + nombre + " debe ser un número válido."@
}

/// Analiza una coordenada de la línea de comandos. Devuelve el entero
/// exactamente cuando el texto es un entero decimal que cabe en un `i32`;
/// si no, el mensaje de error que nombra a la coordenada.
pub fn parse_coordenadas(coord_str: &str, coord_nombre: &str) -> (r: Result<i32, String>)
    ensures
        match r {
            Ok(v) => es_entero(coord_str@) && i32::MIN <= valor_entero(coord_str@) <= i32::MAX
                && v == valor_entero(coord_str@),
            Err(m) => !(es_entero(coord_str@) && i32::MIN <= valor_entero(coord_str@) <= i32::MAX)
                && m@ == mensaje_coordenada(coord_nombre@),
        },
{
    match parsear_i32(coord_str) {
        Some(v) => Ok(v),
        None => {
            let mut mensaje = "ERROR: La coordenada ".to_owned();
            mensaje.append(coord_nombre);
            mensaje.append(" debe ser un número válido.");
            Err(mensaje)
        },
    }
}

/// El resultado de convertir un símbolo que empieza con `F`: un enemigo cuya
/// vida es el último carácter, que debe ser un dígito entre 1 y 2.
pub open spec fn espec_enemigo(s: Seq<char>) -> Result<VistaObjeto, Seq<char>> {
    if es_digito(s[s.len() - 1]) {
        if 1 <= valor_digito(s[s.len() - 1]) <= 2 {
            Ok(VistaObjeto::Enemigo(valor_digito(s[s.len() - 1]), Set::empty()))
        } else {
            Err("Valor de vida de enemigo no válido"@)
        }
    } else {
        Err("No se pudo obtener un valor de vida válido"@)
    }
}

/// El resultado de convertir un símbolo que empieza con `B` o `S`: una bomba
/// cuyo alcance es el entero que sigue, que debe ser positivo.
pub open spec fn espec_bomba(s: Seq<char>, traspaso: bool) -> Result<VistaObjeto, Seq<char>> {
    let resto = s.subrange(1, s.len() as int);
    if es_entero(resto) && i32::MIN <= valor_entero(resto) <= i32::MAX {
        if valor_entero(resto) > 0 {
            Ok(VistaObjeto::Bomba(traspaso, valor_entero(resto)))
        } else if traspaso {
            Err("Valor de alcance de bomba de traspaso no válido"@)
        } else {
            Err("Valor de alcance de bomba no válido"@)
        }
    } else if traspaso {
        Err("No se pudo parsear el valor de alcance de bomba de traspaso"@)
    } else {
        Err("No se pudo parsear el valor de alcance de bomba"@)
    }
}

/// El resultado de convertir un símbolo que empieza con `D`: un desvío hacia
/// la dirección que nombra su segundo y último carácter.
pub open spec fn espec_desvio(s: Seq<char>) -> Result<VistaObjeto, Seq<char>> {
    if s.len() == 2 && s[1] == 'U' {
        Ok(VistaObjeto::Desvio(Direccion::Arriba))
    } else if s.len() == 2 && s[1] == 'D' {
        Ok(VistaObjeto::Desvio(Direccion::Abajo))
    } else if s.len() == 2 && s[1] == 'L' {
        Ok(VistaObjeto::Desvio(Direccion::Izquierda))
    } else if s.len() == 2 && s[1] == 'R' {
        Ok(VistaObjeto::Desvio(Direccion::Derecha))
    } else {
        Err("Dirección de desvío no válida"@)
    }
}

/// El objeto que representa un símbolo del tablero, o el mensaje de error si
/// el símbolo no es válido.
pub open spec fn espec_convertir(s: Seq<char>) -> Result<VistaObjeto, Seq<char>> {
    if s.len() == 0 {
        Err("El símbolo está vacío"@)
    } else if s[0] == 'F' {
        espec_enemigo(s)
    } else if s[0] == 'B' {
        espec_bomba(s, false)
    } else if s[0] == 'S' {
        espec_bomba(s, true)
    } else if s[0] == 'R' {
        Ok(VistaObjeto::Roca)
    } else if s[0] == 'W' {
        Ok(VistaObjeto::Pared)
    } else if s[0] == 'D' {
        espec_desvio(s)
    } else if s[0] == '_' {
        Ok(VistaObjeto::Vacio)
    } else {
        Err("Símbolo no válido en el laberinto"@)
    }
}

/// Convierte un símbolo del tablero en el objeto que representa, según la
/// gramática de [`espec_convertir`]: `_` vacío, `W` pared, `R` roca, `F<n>`
/// enemigo, `B<r>` bomba, `S<r>` bomba de traspaso, `D<U|D|L|R>` desvío.
pub fn convertir_simbolos(simbolo: &str) -> (r: Result<Objeto, &'static str>)
    ensures
        r is Ok <==> espec_convertir(simbolo@) is Ok,
        r is Ok ==> (r->Ok_0)@ == espec_convertir(simbolo@)->Ok_0,
        r is Err ==> (r->Err_0)@ == espec_convertir(simbolo@)->Err_0,
{
    let largo = simbolo.unicode_len();
    if largo == 0 {
        return Err("El símbolo está vacío");
    }
    let primero = simbolo.get_char(0);
    match primero {
        'F' => convertir_enemigo(simbolo),
        'B' => convertir_bomba(simbolo),
        'S' => convertir_bomba_traspaso(simbolo),
        'R' => Ok(Objeto::Roca),
        'W' => Ok(Objeto::Pared),
        'D' => convertir_desvio(simbolo),
        '_' => Ok(Objeto::Vacio),
        _ => Err("Símbolo no válido en el laberinto"),
    }
}

/// Convierte un símbolo de enemigo, `F<n>`.
fn convertir_enemigo(simbolo: &str) -> (r: Result<Objeto, &'static str>)
    requires
        simbolo@.len() > 0,
    ensures
        r is Ok <==> espec_enemigo(simbolo@) is Ok,
        r is Ok ==> (r->Ok_0)@ == espec_enemigo(simbolo@)->Ok_0,
        r is Err ==> (r->Err_0)@ == espec_enemigo(simbolo@)->Err_0,
{
    let largo = simbolo.unicode_len();
    let c = simbolo.get_char(largo - 1);
    let codigo = c as u32;
    if 48 <= codigo && codigo <= 57 {
        let vida = (codigo - 48) as i32;
        if 1 <= vida && vida <= 2 {
            let golpes: Vec<(i32, i32)> = Vec::new();
            proof {
                assert(conjunto_golpes(golpes@) =~= Set::<(int, int)>::empty());
            }
            Ok(Objeto::Enemigo(vida, golpes))
        } else {
            Err("Valor de vida de enemigo no válido")
        }
    } else {
        Err("No se pudo obtener un valor de vida válido")
    }
}

/// Convierte un símbolo de bomba común, `B<r>`.
fn convertir_bomba(simbolo: &str) -> (r: Result<Objeto, &'static str>)
    requires
        simbolo@.len() > 0,
    ensures
        r is Ok <==> espec_bomba(simbolo@, false) is Ok,
        r is Ok ==> (r->Ok_0)@ == espec_bomba(simbolo@, false)->Ok_0,
        r is Err ==> (r->Err_0)@ == espec_bomba(simbolo@, false)->Err_0,
{
    let largo = simbolo.unicode_len();
    let resto = simbolo.substring_char(1, largo);
    match parsear_i32(resto) {
        Some(alcance) => {
            if alcance > 0 {
                Ok(Objeto::Bomba(false, alcance))
            } else {
                Err("Valor de alcance de bomba no válido")
            }
        },
        None => Err("No se pudo parsear el valor de alcance de bomba"),
    }
}

/// Convierte un símbolo de bomba de traspaso, `S<r>`.
fn convertir_bomba_traspaso(simbolo: &str) -> (r: Result<Objeto, &'static str>)
    requires
        simbolo@.len() > 0,
    ensures
        r is Ok <==> espec_bomba(simbolo@, true) is Ok,
        r is Ok ==> (r->Ok_0)@ == espec_bomba(simbolo@, true)->Ok_0,
        r is Err ==> (r->Err_0)@ == espec_bomba(simbolo@, true)->Err_0,
{
    let largo = simbolo.unicode_len();
    let resto = simbolo.substring_char(1, largo);
    match parsear_i32(resto) {
        Some(alcance) => {
            if alcance > 0 {
                Ok(Objeto::Bomba(true, alcance))
            } else {
                Err("Valor de alcance de bomba de traspaso no válido")
            }
        },
        None => Err("No se pudo parsear el valor de alcance de bomba de traspaso"),
    }
}

/// Convierte un símbolo de desvío, `D<U|D|L|R>`.
fn convertir_desvio(simbolo: &str) -> (r: Result<Objeto, &'static str>)
    requires
        simbolo@.len() > 0,
    ensures
        r is Ok <==> espec_desvio(simbolo@) is Ok,
        r is Ok ==> (r->Ok_0)@ == espec_desvio(simbolo@)->Ok_0,
        r is Err ==> (r->Err_0)@ == espec_desvio(simbolo@)->Err_0,
{
    let largo = simbolo.unicode_len();
    if largo == 2 {
        let c = simbolo.get_char(1);
        match c {
            'U' => Ok(Objeto::Desvio(Direccion::Arriba)),
            'D' => Ok(Objeto::Desvio(Direccion::Abajo)),
            'L' => Ok(Objeto::Desvio(Direccion::Izquierda)),
            'R' => Ok(Objeto::Desvio(Direccion::Derecha)),
            _ => Err("Dirección de desvío no válida"),
        }
    } else {
        Err("Dirección de desvío no válida")
    }
}

/// El dígito decimal `d` como carácter.
pub open spec fn char_digito(d: int) -> char {
    if d == 0 {
        '0'
    } else if d == 1 {
        '1'
    } else if d == 2 {
        '2'
    } else if d == 3 {
        '3'
    } else if d == 4 {
        '4'
    } else if d == 5 {
        '5'
    } else if d == 6 {
        '6'
    } else if d == 7 {
        '7'
    } else if d == 8 {
        '8'
    } else {
        '9'
    }
}

/// El texto decimal de un entero no negativo.
pub open spec fn decimal_nat(n: int) -> Seq<char>
    decreases n,
{
    if n < 10 {
        seq![char_digito(n)]
    } else {
        decimal_nat(n / 10).push(char_digito(n % 10))
    }
}

/// El texto decimal de un entero, con su signo si es negativo.
pub open spec fn espec_decimal(n: int) -> Seq<char> {
    if n < 0 {
        seq!['-'] + decimal_nat(-n)
    } else {
        decimal_nat(n)
    }
}

/// El símbolo que representa un objeto: la inversa de [`espec_convertir`]
/// sobre los objetos que la gramática produce.
pub open spec fn espec_simbolo(o: VistaObjeto) -> Seq<char> {
    match o {
        VistaObjeto::Enemigo(vida, _) => seq!['F'] + espec_decimal(vida),
        VistaObjeto::Bomba(traspaso, alcance) => (if traspaso {
            seq!['S']
        } else {
            seq!['B']
        }) + espec_decimal(alcance),
        VistaObjeto::Roca => seq!['R'],
        VistaObjeto::Pared => seq!['W'],
        VistaObjeto::Desvio(d) => match d {
            Direccion::Arriba => seq!['D', 'U'],
            Direccion::Abajo => seq!['D', 'D'],
            Direccion::Izquierda => seq!['D', 'L'],
            Direccion::Derecha => seq!['D', 'R'],
        },
        VistaObjeto::Vacio => seq!['_'],
    }
}

/// Los símbolos de una fila, cada uno seguido de un espacio.
pub open spec fn espec_simbolos_fila(fila: Seq<VistaObjeto>) -> Seq<char>
    decreases fila.len(),
{
    if fila.len() == 0 {
        seq![]
    } else {
        espec_simbolos_fila(fila.drop_last()) + espec_simbolo(fila.last()) + seq![' ']
    }
}

/// Una línea del tablero serializado: los símbolos de la fila, cada uno
/// seguido de un espacio, y un salto de línea al final.
pub open spec fn espec_linea(fila: Seq<VistaObjeto>) -> Seq<char> {
    espec_simbolos_fila(fila) + seq!['\n']
}

/// El texto completo de un tablero serializado: una línea por fila.
pub open spec fn espec_texto(g: Seq<Seq<VistaObjeto>>) -> Seq<char>
    decreases g.len(),
{
    if g.len() == 0 {
        seq![]
    } else {
        espec_texto(g.drop_last()) + espec_linea(g.last())
    }
}

/// El dígito decimal `d`, como texto.
fn texto_digito(d: u32) -> (r: &'static str)
    requires
        d < 10,
    ensures
        r@ == seq![char_digito(d as int)],
{
    proof {
        reveal_strlit("0");
        reveal_strlit("1");
        reveal_strlit("2");
        reveal_strlit("3");
        reveal_strlit("4");
        reveal_strlit("5");
        reveal_strlit("6");
        reveal_strlit("7");
        reveal_strlit("8");
        reveal_strlit("9");
    }
    let r = match d {
        0 => "0",
        1 => "1",
        2 => "2",
        3 => "3",
        4 => "4",
        5 => "5",
        6 => "6",
        7 => "7",
        8 => "8",
        _ => "9",
    };
    proof {
        assert(r@ =~= seq![char_digito(d as int)]);
    }
    r
}

/// Agrega a la salida el texto decimal de un entero no negativo.
fn agregar_decimal(n: u32, salida: &mut String)
    ensures
        final(salida)@ == old(salida)@ + decimal_nat(n as int),
    decreases n,
{
    if n < 10 {
        salida.append(texto_digito(n));
    } else {
        agregar_decimal(n / 10, salida);
        salida.append(texto_digito(n % 10));
        proof {
            assert(old(salida)@ + decimal_nat(n as int / 10) + seq![char_digito(n as int % 10)]
                =~= old(salida)@ + decimal_nat(n as int));
        }
    }
}

/// Agrega a la salida el texto decimal de un entero, con su signo.
fn agregar_entero(n: i32, salida: &mut String)
    ensures
        final(salida)@ == old(salida)@ + espec_decimal(n as int),
{
    proof {
        reveal_strlit("-");
    }
    if n < 0 {
        salida.append("-");
        proof {
            assert(("-")@ =~= seq!['-']);
        }
        let magnitud = (-(n as i64)) as u32;
        agregar_decimal(magnitud, salida);
        proof {
            assert(old(salida)@ + seq!['-'] + decimal_nat(magnitud as int)
                =~= old(salida)@ + espec_decimal(n as int));
        }
    } else {
        agregar_decimal(n as u32, salida);
    }
}

/// Agrega a la salida el símbolo que representa un objeto.
pub fn agregar_simbolo(o: &Objeto, salida: &mut String)
    ensures
        final(salida)@ == old(salida)@ + espec_simbolo(o@),
{
    proof {
        reveal_strlit("F");
        reveal_strlit("B");
        reveal_strlit("S");
        reveal_strlit("R");
        reveal_strlit("W");
        reveal_strlit("DU");
        reveal_strlit("DD");
        reveal_strlit("DL");
        reveal_strlit("DR");
        reveal_strlit("_");
    }
    match o {
        Objeto::Enemigo(vida, _) => {
            salida.append("F");
            agregar_entero(*vida, salida);
            proof {
                assert(("F")@ =~= seq!['F']);
                assert(old(salida)@ + ("F")@ + espec_decimal(*vida as int)
                    =~= old(salida)@ + espec_simbolo(o@));
            }
        },
        Objeto::Bomba(traspaso, alcance) => {
            if *traspaso {
                salida.append("S");
            } else {
                salida.append("B");
            }
            agregar_entero(*alcance, salida);
            proof {
                assert(("S")@ =~= seq!['S']);
                assert(("B")@ =~= seq!['B']);
                if *traspaso {
                    assert(old(salida)@ + ("S")@ + espec_decimal(*alcance as int)
                        =~= old(salida)@ + espec_simbolo(o@));
                } else {
                    assert(old(salida)@ + ("B")@ + espec_decimal(*alcance as int)
                        =~= old(salida)@ + espec_simbolo(o@));
                }
            }
        },
        Objeto::Roca => {
            salida.append("R");
            proof {
                assert(old(salida)@ + ("R")@ =~= old(salida)@ + espec_simbolo(o@));
            }
        },
        Objeto::Pared => {
            salida.append("W");
            proof {
                assert(old(salida)@ + ("W")@ =~= old(salida)@ + espec_simbolo(o@));
            }
        },
        Objeto::Desvio(d) => {
            match d {
                Direccion::Arriba => salida.append("DU"),
                Direccion::Abajo => salida.append("DD"),
                Direccion::Izquierda => salida.append("DL"),
                Direccion::Derecha => salida.append("DR"),
            }
            proof {
                assert(("DU")@ =~= seq!['D', 'U']);
                assert(("DD")@ =~= seq!['D', 'D']);
                assert(("DL")@ =~= seq!['D', 'L']);
                assert(("DR")@ =~= seq!['D', 'R']);
                assert(final(salida)@ =~= old(salida)@ + espec_simbolo(o@));
            }
        },
        Objeto::Vacio => {
            salida.append("_");
            proof {
                assert(old(salida)@ + ("_")@ =~= old(salida)@ + espec_simbolo(o@));
            }
        },
    }
}

/// Agrega a la salida la línea que serializa una fila: cada símbolo seguido
/// de un espacio, y un salto de línea al final.
pub fn agregar_linea(fila: &Vec<Objeto>, salida: &mut String)
    ensures
        final(salida)@ == old(salida)@ + espec_linea(fila@.map_values(|o: Objeto| o@)),
{
    let ghost vista = fila@.map_values(|o: Objeto| o@);
    let ghost base = salida@;
    let mut i: usize = 0;
    while i < fila.len()
        invariant
            0 <= i <= fila@.len(),
            vista == fila@.map_values(|o: Objeto| o@),
            vista.len() == fila@.len(),
            salida@ == base + espec_simbolos_fila(vista.subrange(0, i as int)),
        decreases fila@.len() - i,
    {
        agregar_simbolo(&fila[i], salida);
        salida.append(" ");
        proof {
            reveal_strlit(" ");
            assert((" ")@ =~= seq![' ']);
            assert(vista.subrange(0, i + 1).drop_last() =~= vista.subrange(0, i as int));
            assert(vista.subrange(0, i + 1).last() == fila@[i as int]@);
            assert(salida@ =~= base + espec_simbolos_fila(vista.subrange(0, i + 1)));
        }
        i += 1;
    }
    salida.append("\n");
    proof {
        reveal_strlit("\n");
        assert(("\n")@ =~= seq!['\n']);
        assert(vista.subrange(0, vista.len() as int) =~= vista);
        assert(final(salida)@ =~= base + espec_linea(vista));
    }
}

/// Serializa un tablero como texto: una línea por fila, con los símbolos
/// separados por espacios. La inversa de la construcción del tablero.
pub fn tablero_a_texto(t: &Tablero) -> (s: String)
    ensures
        s@ == espec_texto(t@),
{
    let mut salida = String::new();
    let mut j: usize = 0;
    while j < t.cuadricula.len()
        invariant
            0 <= j <= t.cuadricula@.len(),
            salida@ == espec_texto(t@.subrange(0, j as int)),
        decreases t.cuadricula@.len() - j,
    {
        agregar_linea(&t.cuadricula[j], &mut salida);
        proof {
            assert(t.cuadricula@[j as int]@.map_values(|o: Objeto| o@) =~= t@[j as int]);
            assert(t@.subrange(0, j + 1).drop_last() =~= t@.subrange(0, j as int));
            assert(t@.subrange(0, j + 1).last() == t@[j as int]);
            assert(salida@ =~= espec_texto(t@.subrange(0, j + 1)));
        }
        j += 1;
    }
    proof {
        assert(t@.subrange(0, t@.len() as int) =~= t@);
    }
    salida
}

/// El carácter separa símbolos dentro de una línea.
pub open spec fn es_blanco(c: char) -> bool {
    c == ' ' || c == '\t' || c == '\r'
}

/// Los símbolos de una línea: las corridas máximas de caracteres no blancos.
pub open spec fn espec_tokens(s: Seq<char>) -> Seq<Seq<char>>
    decreases s.len(),
{
    if s.len() == 0 {
        seq![]
    } else {
        let resto = espec_tokens(s.drop_last());
        if es_blanco(s.last()) {
            resto
        } else if s.len() >= 2 && !es_blanco(s[s.len() - 2]) {
            resto.update(resto.len() - 1, resto.last().push(s.last()))
        } else {
            resto.push(seq![s.last()])
        }
    }
}

/// Separa una línea en sus símbolos.
pub fn separar_linea(linea: &str) -> (r: Vec<String>)
    ensures
        r@.map_values(|t: String| t@) == espec_tokens(linea@),
{
    let largo = linea.unicode_len();
    let mut tokens: Vec<String> = Vec::new();
    let mut inicio: usize = 0;
    let mut abierto = false;
    let mut i: usize = 0;
    while i < largo
        invariant
            0 <= i <= largo,
            largo == linea@.len(),
            abierto ==> inicio < i && (forall|k: int|
                inicio <= k < i ==> !es_blanco(#[trigger] linea@[k])) && (inicio == 0 || es_blanco(
                linea@[inicio - 1],
            )) && espec_tokens(linea@.subrange(0, i as int)) == tokens@.map_values(
                |t: String| t@,
            ).push(linea@.subrange(inicio as int, i as int)),
            !abierto ==> (i == 0 || es_blanco(linea@[i - 1])) && espec_tokens(
                linea@.subrange(0, i as int),
            ) == tokens@.map_values(|t: String| t@),
        decreases largo - i,
    {
        let c = linea.get_char(i);
        let blanco = c == ' ' || c == '\t' || c == '\r';
        let ghost prefijo = linea@.subrange(0, i as int);
        let ghost prefijo2 = linea@.subrange(0, i + 1);
        proof {
            assert(prefijo2.drop_last() =~= prefijo);
            assert(prefijo2.last() == linea@[i as int]);
        }
        if blanco {
            if abierto {
                let token = linea.substring_char(inicio, i).to_owned();
                let ghost antes = tokens@;
                tokens.push(token);
                proof {
                    assert(tokens@.map_values(|t: String| t@) =~= antes.map_values(
                        |t: String| t@,
                    ).push(linea@.subrange(inicio as int, i as int)));
                }
                abierto = false;
            }
        } else {
            if !abierto {
                inicio = i;
                abierto = true;
                proof {
                    assert(linea@.subrange(i as int, i + 1) =~= seq![linea@[i as int]]);
                }
            } else {
                proof {
                    assert(!es_blanco(linea@[i - 1]));
                    assert(linea@.subrange(inicio as int, i as int).push(linea@[i as int])
                        =~= linea@.subrange(inicio as int, i + 1));
                    let mapa = tokens@.map_values(|t: String| t@);
                    assert(mapa.push(linea@.subrange(inicio as int, i as int)).update(
                        mapa.len() as int,
                        linea@.subrange(inicio as int, i + 1),
                    ) =~= mapa.push(linea@.subrange(inicio as int, i + 1)));
                }
            }
        }
        i += 1;
    }
    if abierto {
        let token = linea.substring_char(inicio, largo).to_owned();
        let ghost antes = tokens@;
        tokens.push(token);
        proof {
            assert(tokens@.map_values(|t: String| t@) =~= antes.map_values(|t: String| t@).push(
                linea@.subrange(inicio as int, largo as int),
            ));
        }
    }
    proof {
        assert(linea@.subrange(0, largo as int) =~= linea@);
    }
    tokens
}

/// Los objetos de una fila de símbolos, o el primer mensaje de error.
pub open spec fn espec_convertir_fila(ts: Seq<Seq<char>>) -> Result<Seq<VistaObjeto>, Seq<char>>
    decreases ts.len(),
{
    if ts.len() == 0 {
        Ok(seq![])
    } else {
        match espec_convertir_fila(ts.drop_last()) {
            Err(m) => Err(m),
            Ok(fila) => match espec_convertir(ts.last()) {
                Err(m) => Err(m),
                Ok(o) => Ok(fila.push(o)),
            },
        }
    }
}

/// Un error en un prefijo de la fila es el error de toda la fila.
proof fn lema_fila_error(ts: Seq<Seq<char>>, n: int)
    requires
        0 <= n <= ts.len(),
        espec_convertir_fila(ts.subrange(0, n)) is Err,
    ensures
        espec_convertir_fila(ts) == espec_convertir_fila(ts.subrange(0, n)),
    decreases ts.len() - n,
{
    if n == ts.len() {
        assert(ts.subrange(0, n) =~= ts);
    } else {
        assert(ts.subrange(0, n + 1).drop_last() =~= ts.subrange(0, n));
        lema_fila_error(ts, n + 1);
    }
}

/// Convierte una línea de símbolos separados por blancos en una fila de
/// objetos. Devuelve el primer error de conversión, si lo hay.
pub fn convertir_linea(linea: &str) -> (r: Result<Vec<Objeto>, &'static str>)
    ensures
        r is Ok <==> espec_convertir_fila(espec_tokens(linea@)) is Ok,
        r is Ok ==> (r->Ok_0)@.map_values(|o: Objeto| o@) == espec_convertir_fila(
            espec_tokens(linea@),
        )->Ok_0,
        r is Err ==> (r->Err_0)@ == espec_convertir_fila(espec_tokens(linea@))->Err_0,
{
    let tokens = separar_linea(linea);
    let ghost ts = espec_tokens(linea@);
    let mut fila: Vec<Objeto> = Vec::new();
    proof {
        assert(ts.subrange(0, 0) =~= Seq::<Seq<char>>::empty());
        assert(fila@.map_values(|o: Objeto| o@) =~= Seq::<VistaObjeto>::empty());
    }
    let mut k: usize = 0;
    while k < tokens.len()
        invariant
            0 <= k <= tokens@.len(),
            ts == espec_tokens(linea@),
            ts == tokens@.map_values(|t: String| t@),
            ts.len() == tokens@.len(),
            espec_convertir_fila(ts.subrange(0, k as int)) == Ok::<Seq<VistaObjeto>, Seq<char>>(
                fila@.map_values(|o: Objeto| o@),
            ),
        decreases tokens@.len() - k,
    {
        let ghost antes = fila@;
        proof {
            assert(ts[k as int] == tokens@[k as int]@);
        }
        match convertir_simbolos(tokens[k].as_str()) {
            Ok(o) => {
                fila.push(o);
                proof {
                    assert(ts.subrange(0, k + 1).drop_last() =~= ts.subrange(0, k as int));
                    assert(ts.subrange(0, k + 1).last() == ts[k as int]);
                    assert(fila@.map_values(|o2: Objeto| o2@) =~= antes.map_values(
                        |o2: Objeto| o2@,
                    ).push(o@));
                }
            },
            Err(m) => {
                proof {
                    assert(ts.subrange(0, k + 1).drop_last() =~= ts.subrange(0, k as int));
                    assert(ts.subrange(0, k + 1).last() == ts[k as int]);
                    assert(espec_convertir_fila(ts.subrange(0, k + 1)) is Err);
                    lema_fila_error(ts, k + 1);
                }
                return Err(m);
            },
        }
        k += 1;
    }
    proof {
        assert(ts.subrange(0, ts.len() as int) =~= ts);
    }
    Ok(fila)
}

/// Las filas de un tablero a partir de sus líneas, o el primer mensaje de
/// error de conversión.
pub open spec fn espec_filas(lineas: Seq<Seq<char>>) -> Result<Seq<Seq<VistaObjeto>>, Seq<char>>
    decreases lineas.len(),
{
    if lineas.len() == 0 {
        Ok(seq![])
    } else {
        match espec_filas(lineas.drop_last()) {
            Err(m) => Err(m),
            Ok(filas) => match espec_convertir_fila(espec_tokens(lineas.last())) {
                Err(m) => Err(m),
                Ok(f) => Ok(filas.push(f)),
            },
        }
    }
}

/// Un error en un prefijo de las líneas es el error de todo el tablero.
proof fn lema_filas_error(lineas: Seq<Seq<char>>, n: int)
    requires
        0 <= n <= lineas.len(),
        espec_filas(lineas.subrange(0, n)) is Err,
    ensures
        espec_filas(lineas) == espec_filas(lineas.subrange(0, n)),
    decreases lineas.len() - n,
{
    if n == lineas.len() {
        assert(lineas.subrange(0, n) =~= lineas);
    } else {
        assert(lineas.subrange(0, n + 1).drop_last() =~= lineas.subrange(0, n));
        lema_filas_error(lineas, n + 1);
    }
}

/// El resultado de construir un tablero a partir de sus líneas: las filas
/// convertidas, si todas las líneas son válidas, hay al menos una, y forman
/// una cuadrícula cuadrada que cabe en un `i32`.
pub open spec fn espec_construir(lineas: Seq<Seq<char>>) -> Result<
    Seq<Seq<VistaObjeto>>,
    Seq<char>,
> {
    match espec_filas(lineas) {
        Err(m) => Err(m),
        Ok(filas) => {
            if filas.len() == 0 {
                Err("No se pudo crear el tablero"@)
            } else if filas.len() < 0x8000_0000 && cuadrada(filas) {
                Ok(filas)
            } else {
                Err("El tablero no es cuadrado"@)
            }
        },
    }
}

/// Construye un tablero bien formado a partir de sus líneas de texto, según
/// [`espec_construir`]: convierte cada línea en una fila y exige que haya
/// tantas filas como símbolos tiene cada una.
pub fn construir_tablero(lineas: &Vec<String>) -> (r: Result<Tablero, String>)
    ensures
        r is Ok <==> espec_construir(lineas@.map_values(|l: String| l@)) is Ok,
        r is Ok ==> {
            &&& (r->Ok_0)@ == espec_construir(lineas@.map_values(|l: String| l@))->Ok_0
            &&& (r->Ok_0).bien_formado()
            &&& (r->Ok_0).tamano as int == (r->Ok_0)@.len()
        },
        r is Err ==> (r->Err_0)@ == espec_construir(lineas@.map_values(|l: String| l@))->Err_0,
{
    let ghost vistas = lineas@.map_values(|l: String| l@);
    let mut cuadricula: Vec<Vec<Objeto>> = Vec::new();
    proof {
        assert(vistas.subrange(0, 0) =~= Seq::<Seq<char>>::empty());
        assert(cuadricula@.map_values(|f: Vec<Objeto>| f@.map_values(|o: Objeto| o@))
            =~= Seq::<Seq<VistaObjeto>>::empty());
    }
    let mut j: usize = 0;
    while j < lineas.len()
        invariant
            0 <= j <= lineas@.len(),
            vistas == lineas@.map_values(|l: String| l@),
            vistas.len() == lineas@.len(),
            cuadricula@.len() == j,
            espec_filas(vistas.subrange(0, j as int)) == Ok::<Seq<Seq<VistaObjeto>>, Seq<char>>(
                cuadricula@.map_values(|f: Vec<Objeto>| f@.map_values(|o: Objeto| o@)),
            ),
        decreases lineas@.len() - j,
    {
        let ghost antes = cuadricula@;
        proof {
            assert(vistas[j as int] == lineas@[j as int]@);
        }
        match convertir_linea(lineas[j].as_str()) {
            Ok(fila) => {
                cuadricula.push(fila);
                proof {
                    assert(vistas.subrange(0, j + 1).drop_last() =~= vistas.subrange(0, j as int));
                    assert(vistas.subrange(0, j + 1).last() == vistas[j as int]);
                    assert(cuadricula@.map_values(|f: Vec<Objeto>| f@.map_values(|o: Objeto| o@))
                        =~= antes.map_values(|f: Vec<Objeto>| f@.map_values(|o: Objeto| o@)).push(
                        fila@.map_values(|o: Objeto| o@),
                    ));
                }
            },
            Err(m) => {
                proof {
                    assert(vistas.subrange(0, j + 1).drop_last() =~= vistas.subrange(0, j as int));
                    assert(vistas.subrange(0, j + 1).last() == vistas[j as int]);
                    assert(espec_filas(vistas.subrange(0, j + 1)) is Err);
                    lema_filas_error(vistas, j + 1);
                }
                return Err(m.to_owned());
            },
        }
        j += 1;
    }
    proof {
        assert(vistas.subrange(0, vistas.len() as int) =~= vistas);
    }
    let ghost filas = cuadricula@.map_values(|f: Vec<Objeto>| f@.map_values(|o: Objeto| o@));
    if cuadricula.len() == 0 {
        return Err("No se pudo crear el tablero".to_owned());
    }
    if cuadricula.len() >= 0x8000_0000 {
        return Err("El tablero no es cuadrado".to_owned());
    }
    let lado = cuadricula.len();
    let mut f: usize = 0;
    while f < lado
        invariant
            0 <= f <= lado,
            lado == cuadricula@.len(),
            1 <= lado < 0x8000_0000,
            vistas == lineas@.map_values(|l: String| l@),
            espec_filas(vistas) == Ok::<Seq<Seq<VistaObjeto>>, Seq<char>>(filas),
            filas == cuadricula@.map_values(|fl: Vec<Objeto>| fl@.map_values(|o: Objeto| o@)),
            filas.len() == lado,
            forall|k: int| 0 <= k < f ==> (#[trigger] filas[k]).len() == lado,
        decreases lado - f,
    {
        if cuadricula[f].len() != lado {
            proof {
                assert(filas[f as int].len() != filas.len());
                assert(!cuadrada(filas));
            }
            return Err("El tablero no es cuadrado".to_owned());
        }
        f += 1;
    }
    proof {
        assert(cuadrada(filas));
    }
    let t = Tablero { cuadricula, tamano: lado as i32 };
    proof {
        assert(t@ =~~= filas);
    }
    Ok(t)
}

} // verus!
