//! The touch buttons drawn over the game, and the keys they send.
//!
//! They are the same as the Android build's: 1 2 3 4 / Z X C / arrows /
//! space, in the order in which the buttons are created; a button's tag is
//! its place in the table.
use vstd::prelude::*;

verus! {

/// The physical keys that the buttons stand for.
#[derive(Clone, Copy, Debug, PartialEq, Eq, Structural)]
pub enum TeclaFisica {
    Digit1,
    Digit2,
    Digit3,
    Digit4,
    KeyZ,
    KeyX,
    KeyC,
    ArrowLeft,
    ArrowUp,
    ArrowRight,
    ArrowDown,
    Space,
}

/// What a key means, as opposed to where it sits.
#[derive(Clone, Copy, Debug, PartialEq, Eq, Structural)]
pub enum TeclaLogica {
    /// A key that types no character (the arrows).
    Desconhecida,
    /// A key that types this character.
    Caractere(char),
}

/// A key as the player receives it; it always sits in the standard place.
#[derive(Clone, Copy, Debug, PartialEq, Eq, Structural)]
pub struct DescritorDeTecla {
    pub fisica: TeclaFisica,
    pub logica: TeclaLogica,
}

/// A key going down or coming up.
#[derive(Clone, Copy, Debug, PartialEq, Eq, Structural)]
pub enum EventoDeTecla {
    Apertada(DescritorDeTecla),
    Solta(DescritorDeTecla),
}

/// One button: its label, its key, and the character it types (`'\0'` for
/// none).
pub struct Tecla {
    pub rotulo: &'static str,
    pub fisica: TeclaFisica,
    pub caractere: char,
}

/// How many buttons there are.
pub const QUANTAS_TECLAS: usize = 12;

/// The key and character of the button at `i`, in creation order.
pub open spec fn tecla_em(i: int) -> (TeclaFisica, char) {
    if i == 0 {
        (TeclaFisica::Digit1, '1')
    } else if i == 1 {
        (TeclaFisica::Digit2, '2')
    } else if i == 2 {
        (TeclaFisica::Digit3, '3')
    } else if i == 3 {
        (TeclaFisica::Digit4, '4')
    } else if i == 4 {
        (TeclaFisica::KeyZ, 'z')
    } else if i == 5 {
        (TeclaFisica::KeyX, 'x')
    } else if i == 6 {
        (TeclaFisica::KeyC, 'c')
    } else if i == 7 {
        (TeclaFisica::ArrowLeft, '\u{0}')
    } else if i == 8 {
        (TeclaFisica::ArrowUp, '\u{0}')
    } else if i == 9 {
        (TeclaFisica::ArrowRight, '\u{0}')
    } else if i == 10 {
        (TeclaFisica::ArrowDown, '\u{0}')
    } else {
        (TeclaFisica::Space, ' ')
    }
}

/// The label of the button at `i`.
pub open spec fn rotulo_em(i: int) -> Seq<char> {
    if i == 0 {
        "1"@
    } else if i == 1 {
        "2"@
    } else if i == 2 {
        "3"@
    } else if i == 3 {
        "4"@
    } else if i == 4 {
        "Z"@
    } else if i == 5 {
        "X"@
    } else if i == 6 {
        "C"@
    } else if i == 7 {
        "\u{2190}"@
    } else if i == 8 {
        "\u{2191}"@
    } else if i == 9 {
        "\u{2192}"@
    } else if i == 10 {
        "\u{2193}"@
    } else {
        "ESPACO"@
    }
}

/// The key that a button's character stands for: none for `'\0'`.
pub open spec fn logica_de(c: char) -> TeclaLogica {
    if c == '\u{0}' {
        TeclaLogica::Desconhecida
    } else {
        TeclaLogica::Caractere(c)
    }
}

/// The event that the button with tag `indice` sends when pressed
/// (`apertando`) or released; none for a tag outside the table.
pub open spec fn evento_de(indice: int, apertando: bool) -> Option<EventoDeTecla> {
    if 0 <= indice < QUANTAS_TECLAS {
        let (fisica, c) = tecla_em(indice);
        let d = DescritorDeTecla { fisica, logica: logica_de(c) };
        Some(
            if apertando {
                EventoDeTecla::Apertada(d)
            } else {
                EventoDeTecla::Solta(d)
            },
        )
    } else {
        None
    }
}

/// The buttons' keys, in the order in which the buttons are created.
pub fn tabela_de_teclas() -> (r: Vec<Tecla>)
    ensures
        r.len() == QUANTAS_TECLAS,
        forall|i: int|
            0 <= i < QUANTAS_TECLAS ==> (#[trigger] r[i]).rotulo@ == rotulo_em(i) && (r[i].fisica,
            r[i].caractere) == tecla_em(i),
{
    let mut r: Vec<Tecla> = Vec::new();
    r.push(Tecla { rotulo: "1", fisica: TeclaFisica::Digit1, caractere: '1' });
    r.push(Tecla { rotulo: "2", fisica: TeclaFisica::Digit2, caractere: '2' });
    r.push(Tecla { rotulo: "3", fisica: TeclaFisica::Digit3, caractere: '3' });
    r.push(Tecla { rotulo: "4", fisica: TeclaFisica::Digit4, caractere: '4' });
    r.push(Tecla { rotulo: "Z", fisica: TeclaFisica::KeyZ, caractere: 'z' });
    r.push(Tecla { rotulo: "X", fisica: TeclaFisica::KeyX, caractere: 'x' });
    r.push(Tecla { rotulo: "C", fisica: TeclaFisica::KeyC, caractere: 'c' });
    r.push(Tecla { rotulo: "\u{2190}", fisica: TeclaFisica::ArrowLeft, caractere: '\u{0}' });
    r.push(Tecla { rotulo: "\u{2191}", fisica: TeclaFisica::ArrowUp, caractere: '\u{0}' });
    r.push(Tecla { rotulo: "\u{2192}", fisica: TeclaFisica::ArrowRight, caractere: '\u{0}' });
    r.push(Tecla { rotulo: "\u{2193}", fisica: TeclaFisica::ArrowDown, caractere: '\u{0}' });
    r.push(Tecla { rotulo: "ESPACO", fisica: TeclaFisica::Space, caractere: ' ' });
    r
}

/// The event to send to the game for the button with tag `indice`, as if a
/// real keyboard had been used; none for a tag that no button has.
pub fn mandar_tecla(indice: isize, apertando: bool) -> (r: Option<EventoDeTecla>)
    ensures
        r == evento_de(indice as int, apertando),
{
    if indice < 0 || indice >= 12 {
        return None;
    }
    let tabela = tabela_de_teclas();
    let tecla = &tabela[indice as usize];
    let fisica = tecla.fisica;
    let caractere = tecla.caractere;
    let logica = if caractere == '\u{0}' {
        TeclaLogica::Desconhecida
    } else {
        TeclaLogica::Caractere(caractere)
    };
    let d = DescritorDeTecla { fisica, logica };
    if apertando {
        Some(EventoDeTecla::Apertada(d))
    } else {
        Some(EventoDeTecla::Solta(d))
    }
}

/// Pressing and releasing a button send the same key, down then up; the
/// arrows type no character, the other buttons type theirs.
pub proof fn lei_apertar_e_soltar_a_mesma_tecla(indice: int)
    requires
        0 <= indice < QUANTAS_TECLAS,
    ensures
        evento_de(indice, true) matches Some(EventoDeTecla::Apertada(a)) && evento_de(
            indice,
            false,
        ) matches Some(EventoDeTecla::Solta(s)) && a == s && a.fisica == tecla_em(indice).0 && (
        a.logica is Desconhecida <==> 7 <= indice <= 10),
{
}


/// Each button sends the key that its label names: the digits 1 to 4, the
/// letters Z X C (typing lower case), the four arrows (typing nothing) and
/// the space bar, in creation order; no other tag sends anything.
pub proof fn lei_cada_botao_manda_a_tecla_do_seu_rotulo()
    ensures
        rotulo_em(0) == "1"@ && evento_de(0, true) == Some(
            EventoDeTecla::Apertada(
                DescritorDeTecla { fisica: TeclaFisica::Digit1, logica: TeclaLogica::Caractere('1') },
            ),
        ),
        rotulo_em(1) == "2"@ && evento_de(1, true) == Some(
            EventoDeTecla::Apertada(
                DescritorDeTecla { fisica: TeclaFisica::Digit2, logica: TeclaLogica::Caractere('2') },
            ),
        ),
        rotulo_em(2) == "3"@ && evento_de(2, true) == Some(
            EventoDeTecla::Apertada(
                DescritorDeTecla { fisica: TeclaFisica::Digit3, logica: TeclaLogica::Caractere('3') },
            ),
        ),
        rotulo_em(3) == "4"@ && evento_de(3, true) == Some(
            EventoDeTecla::Apertada(
                DescritorDeTecla { fisica: TeclaFisica::Digit4, logica: TeclaLogica::Caractere('4') },
            ),
        ),
        rotulo_em(4) == "Z"@ && evento_de(4, true) == Some(
            EventoDeTecla::Apertada(
                DescritorDeTecla { fisica: TeclaFisica::KeyZ, logica: TeclaLogica::Caractere('z') },
            ),
        ),
        rotulo_em(5) == "X"@ && evento_de(5, true) == Some(
            EventoDeTecla::Apertada(
                DescritorDeTecla { fisica: TeclaFisica::KeyX, logica: TeclaLogica::Caractere('x') },
            ),
        ),
        rotulo_em(6) == "C"@ && evento_de(6, true) == Some(
            EventoDeTecla::Apertada(
                DescritorDeTecla { fisica: TeclaFisica::KeyC, logica: TeclaLogica::Caractere('c') },
            ),
        ),
        rotulo_em(7) == "\u{2190}"@ && evento_de(7, true) == Some(
            EventoDeTecla::Apertada(
                DescritorDeTecla { fisica: TeclaFisica::ArrowLeft, logica: TeclaLogica::Desconhecida },
            ),
        ),
        rotulo_em(8) == "\u{2191}"@ && evento_de(8, true) == Some(
            EventoDeTecla::Apertada(
                DescritorDeTecla { fisica: TeclaFisica::ArrowUp, logica: TeclaLogica::Desconhecida },
            ),
        ),
        rotulo_em(9) == "\u{2192}"@ && evento_de(9, true) == Some(
            EventoDeTecla::Apertada(
                DescritorDeTecla { fisica: TeclaFisica::ArrowRight, logica: TeclaLogica::Desconhecida },
            ),
        ),
        rotulo_em(10) == "\u{2193}"@ && evento_de(10, true) == Some(
            EventoDeTecla::Apertada(
                DescritorDeTecla { fisica: TeclaFisica::ArrowDown, logica: TeclaLogica::Desconhecida },
            ),
        ),
        rotulo_em(11) == "ESPACO"@ && evento_de(11, true) == Some(
            EventoDeTecla::Apertada(
                DescritorDeTecla { fisica: TeclaFisica::Space, logica: TeclaLogica::Caractere(' ') },
            ),
        ),
        forall|i: int, apertando: bool|
            (i < 0 || i >= 12) ==> #[trigger] evento_de(i, apertando) is None,
{
    reveal_strlit("1");
    reveal_strlit("2");
    reveal_strlit("3");
    reveal_strlit("4");
    reveal_strlit("Z");
    reveal_strlit("X");
    reveal_strlit("C");
    reveal_strlit("\u{2190}");
    reveal_strlit("\u{2191}");
    reveal_strlit("\u{2192}");
    reveal_strlit("\u{2193}");
    reveal_strlit("ESPACO");
}

} // verus!
