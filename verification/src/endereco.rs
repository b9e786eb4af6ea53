//! Addresses that open a game from the internet.
//!
//! Two forms are accepted:
//!
//!   http://servidor/Loading.swf?user=fulano&key=abc
//!   deathnote://jogar?u=<the address above, encoded>
//!
//! The second exists because a plain internet link cannot open an
//! application (it would open the browser); with a scheme of our own, a
//! button on a page opens the game here. Ruffle does not read the user and
//! key out of the address, so everything after the question mark becomes a
//! parameter of the game.
use vstd::prelude::*;

use crate::texto::{caracteres, comeca_com, iguais};

verus! {

/// An address as the logic reads it: its serialization, its scheme, and the
/// pairs of its query, decoded, in order.
pub struct UrlAnalisado {
    pub serializacao: String,
    pub esquema: String,
    pub pares: Vec<(String, String)>,
}

/// The view of a list of pairs of strings.
pub open spec fn visao_dos_pares(pares: Seq<(String, String)>) -> Seq<(Seq<char>, Seq<char>)> {
    pares.map_values(|p: (String, String)| (p.0@, p.1@))
}

/// The view of a parsed address: serialization, scheme, query pairs.
pub open spec fn visao_do_url(u: UrlAnalisado) -> (Seq<char>, Seq<char>, Seq<(Seq<char>, Seq<char>)>) {
    (u.serializacao@, u.esquema@, visao_dos_pares(u.pares@))
}

/// What `url::Url::parse` makes of a text, seen through `Url::as_str`,
/// `Url::scheme` and `Url::query_pairs`; none when it is no absolute address.
pub uninterp spec fn url_analisado(texto: Seq<char>) -> Option<
    (Seq<char>, Seq<char>, Seq<(Seq<char>, Seq<char>)>),
>;

/// Parses `texto` as an absolute address with `url::Url::parse`, and reads
/// the result's serialization (`as_str`), scheme (`scheme`) and decoded query
/// pairs (`query_pairs`). The contract claims only that the outcome is
/// `url_analisado` of the text: none exactly when the parse fails.
#[verifier::external_body]
fn analisar_url(texto: &str) -> (r: Option<UrlAnalisado>)
    ensures
        match r {
            Some(u) => url_analisado(texto@) == Some(visao_do_url(u)),
            None => url_analisado(texto@) is None,
        },
{
    let u = url::Url::parse(texto).ok()?;
    let mut pares = Vec::new();
    for (k, v) in u.query_pairs() {
        pares.push((k.into_owned(), v.into_owned()));
    }
    Some(UrlAnalisado { serializacao: u.as_str().to_string(), esquema: u.scheme().to_string(), pares })
}

/// The value of the first pair whose key is `chave`.
pub open spec fn primeiro_valor(pares: Seq<(Seq<char>, Seq<char>)>, chave: Seq<char>) -> Option<
    Seq<char>,
>
    decreases pares.len(),
{
    if pares.len() == 0 {
        None
    } else if pares[0].0 == chave {
        Some(pares[0].1)
    } else {
        primeiro_valor(pares.drop_first(), chave)
    }
}

/// What to do with an address once parsed.
pub enum Decisao {
    /// Play it: it is an internet address.
    Tocar(UrlAnalisado),
    /// It is one of ours: the real address comes inside it, still to parse;
    /// it plays only if it is of the internet.
    AbrirDentro(String),
    /// Not for here: the library of files takes over.
    Recusar,
}

/// The decision for a parsed address, by its scheme.
pub open spec fn decisao_para(u: UrlAnalisado, r: Decisao) -> bool {
    let (_, esquema, pares) = visao_do_url(u);
    if esquema == "deathnote"@ {
        match primeiro_valor(pares, "u"@) {
            Some(d) => r matches Decisao::AbrirDentro(s) && s@ == d,
            None => r is Recusar,
        }
    } else if esquema == "http"@ || esquema == "https"@ {
        r == Decisao::Tocar(u)
    } else {
        r is Recusar
    }
}

/// The three schemes are distinct.
proof fn lema_esquemas_distintos()
    ensures
        "http"@ != "https"@,
        "http"@ != "deathnote"@,
        "https"@ != "deathnote"@,
{
    reveal_strlit("http");
    reveal_strlit("https");
    reveal_strlit("deathnote");
    assert("http"@.len() != "https"@.len());
    assert("http"@.len() != "deathnote"@.len());
    assert("https"@.len() != "deathnote"@.len());
}

/// Whether a scheme is of the internet.
pub open spec fn da_internet(esquema: Seq<char>) -> bool {
    esquema == "http"@ || esquema == "https"@
}

/// What the text `d` opens as an internet address: its parse, when it parses
/// with an internet scheme.
pub open spec fn internet_de(d: Seq<char>) -> Option<(Seq<char>, Seq<char>, Seq<(Seq<char>, Seq<char>)>)> {
    match url_analisado(d) {
        Some(w) => if da_internet(w.1) {
            Some(w)
        } else {
            None
        },
        None => None,
    }
}

/// What an address given as text opens: the address itself when it is of
/// the internet; when it is one of ours, the address inside its first `u`
/// parameter, provided that one is of the internet too; nothing otherwise,
/// and then the library of files takes over.
pub open spec fn alvo_de(texto: Seq<char>) -> Option<(Seq<char>, Seq<char>, Seq<(Seq<char>, Seq<char>)>)> {
    match url_analisado(texto) {
        None => None,
        Some(v) => if v.1 == "deathnote"@ {
            match primeiro_valor(v.2, "u"@) {
                Some(d) => internet_de(d),
                None => None,
            }
        } else if da_internet(v.1) {
            Some(v)
        } else {
            None
        },
    }
}

/// Whether `texto` is `lit`.
fn eh(texto: &String, lit: &str) -> (r: bool)
    ensures
        r == (texto@ == lit@),
{
    iguais(&caracteres(texto.as_str()), &caracteres(lit))
}

/// The value of the first pair whose key is `chave`.
pub fn valor_do_parametro(pares: &Vec<(String, String)>, chave: &str) -> (r: Option<String>)
    ensures
        match r {
            Some(v) => primeiro_valor(visao_dos_pares(pares@), chave@) == Some(v@),
            None => primeiro_valor(visao_dos_pares(pares@), chave@) is None,
        },
{
    let ghost todos = visao_dos_pares(pares@);
    let mut i: usize = 0;
    assert(todos.subrange(0, todos.len() as int) =~= todos);
    while i < pares.len()
        invariant
            i <= pares.len(),
            todos == visao_dos_pares(pares@),
            primeiro_valor(todos, chave@) == primeiro_valor(todos.subrange(i as int, todos.len() as int), chave@),
        decreases pares.len() - i,
    {
        let ghost resto = todos.subrange(i as int, todos.len() as int);
        assert(resto[0] == todos[i as int]);
        assert(resto.drop_first() =~= todos.subrange(i + 1, todos.len() as int));
        if eh(&pares[i].0, chave) {
            return Some(pares[i].1.clone());
        }
        i = i + 1;
    }
    None
}

/// Decides what to do with a parsed address, by its scheme: ours carries the
/// real address in its `u` parameter; `http` and `https` are played; any
/// other is refused.
pub fn decidir_endereco(u: UrlAnalisado) -> (r: Decisao)
    ensures
        decisao_para(u, r),
{
    if eh(&u.esquema, "deathnote") {
        match valor_do_parametro(&u.pares, "u") {
            Some(d) => Decisao::AbrirDentro(d),
            None => Decisao::Recusar,
        }
    } else if eh(&u.esquema, "http") || eh(&u.esquema, "https") {
        Decisao::Tocar(u)
    } else {
        Decisao::Recusar
    }
}

/// The game that an address given as text opens, with the pairs of its query
/// as the game's parameters; none when it does not parse, is neither of the
/// internet nor one of ours, or is one of ours whose inner address is
/// missing, does not parse or is not of the internet.
pub fn tocar_endereco(texto: &str) -> (r: Option<UrlAnalisado>)
    ensures
        match r {
            Some(u) => alvo_de(texto@) == Some(visao_do_url(u)),
            None => alvo_de(texto@) is None,
        },
        match url_analisado(texto@) {
            None => r is None,
            Some(v) => {
                &&& (v.1 == "http"@ || v.1 == "https"@) ==> (r matches Some(u) && visao_do_url(u)
                    == v)
                &&& (v.1 != "http"@ && v.1 != "https"@ && v.1 != "deathnote"@) ==> r is None
                &&& v.1 == "deathnote"@ ==> match primeiro_valor(v.2, "u"@) {
                    None => r is None,
                    Some(d) => match url_analisado(d) {
                        None => r is None,
                        Some(w) => if w.1 == "http"@ || w.1 == "https"@ {
                            r matches Some(u) && visao_do_url(u) == w
                        } else {
                            r is None
                        },
                    },
                }
            },
        },
        match r {
            Some(u) => u.esquema@ == "http"@ || u.esquema@ == "https"@,
            None => true,
        },
{
    proof {
        lema_esquemas_distintos();
    }
    let endereco = match analisar_url(texto) {
        Some(u) => u,
        None => return None,
    };
    match decidir_endereco(endereco) {
        Decisao::Tocar(u) => Some(u),
        Decisao::AbrirDentro(d) => match analisar_url(d.as_str()) {
            Some(w) => if eh(&w.esquema, "http") || eh(&w.esquema, "https") {
                Some(w)
            } else {
                None
            },
            None => None,
        },
        Decisao::Recusar => None,
    }
}

/// Among the addresses that came from outside (none where one could not be
/// written as text), the first that opens a game, with its place.
pub fn primeiro_da_internet(textos: &Vec<Option<String>>) -> (r: Option<(usize, UrlAnalisado)>)
    ensures
        match r {
            Some((i, u)) => {
                &&& i < textos.len()
                &&& (textos[i as int] matches Some(t) && alvo_de(t@) == Some(visao_do_url(u)))
                &&& forall|j: int|
                    0 <= j < i ==> (#[trigger] textos[j] matches Some(t) ==> alvo_de(t@) is None)
            },
            None => forall|j: int|
                0 <= j < textos.len() ==> (#[trigger] textos[j] matches Some(t) ==> alvo_de(t@) is None),
        },
{
    let mut i: usize = 0;
    while i < textos.len()
        invariant
            i <= textos.len(),
            forall|j: int|
                0 <= j < i ==> (#[trigger] textos[j] matches Some(t) ==> alvo_de(t@) is None),
        decreases textos.len() - i,
    {
        match &textos[i] {
            Some(t) => {
                match tocar_endereco(t.as_str()) {
                    Some(u) => return Some((i, u)),
                    None => {},
                }
            },
            None => {},
        }
        i = i + 1;
    }
    None
}

/// What the entry page's navigation is answered.
#[derive(Clone, Copy, Debug, PartialEq, Eq, Structural)]
pub enum PoliticaDeNavegacao {
    /// Let the page go there.
    Permitir,
    /// Do not navigate: the address is one of ours and opens the game.
    Cancelar,
}

/// The start of the addresses that are ours.
pub const PREFIXO_DO_JOGO: &'static str = "deathnote:";

/// The page that the application opens at start.
pub const ENDERECO_DA_ENTRADA: &'static str = "https://deathnotestore.com.br/jogar/";

/// The answer to a navigation of the entry page towards `texto` (empty when
/// the navigation has no address): an address of ours is not followed but
/// opens the game; any other is followed.
pub fn decidir(texto: &str) -> (r: PoliticaDeNavegacao)
    ensures
        r == (if PREFIXO_DO_JOGO@.len() <= texto@.len() && texto@.subrange(
            0,
            PREFIXO_DO_JOGO@.len() as int,
        ) == PREFIXO_DO_JOGO@ {
            PoliticaDeNavegacao::Cancelar
        } else {
            PoliticaDeNavegacao::Permitir
        }),
{
    if comeca_com(&caracteres(texto), &caracteres(PREFIXO_DO_JOGO)) {
        PoliticaDeNavegacao::Cancelar
    } else {
        PoliticaDeNavegacao::Permitir
    }
}

/// The address given at start after `--jogo`, when there is one: the
/// argument that follows the first `--jogo`.
pub fn endereco_de_teste(argumentos: &Vec<String>) -> (r: Option<String>)
    ensures
        match r {
            Some(e) => exists|i: int|
                0 <= i < argumentos.len() - 1 && (#[trigger] argumentos[i])@ == "--jogo"@ && e@
                    == argumentos[i + 1]@ && forall|j: int|
                    0 <= j < i ==> (#[trigger] argumentos[j])@ != "--jogo"@,
            None => forall|j: int|
                0 <= j < argumentos.len() - 1 ==> (#[trigger] argumentos[j])@ != "--jogo"@,
        },
{
    let mut i: usize = 0;
    while i < argumentos.len()
        invariant
            i <= argumentos.len(),
            forall|j: int| 0 <= j < i && j < argumentos.len() - 1 ==> (#[trigger] argumentos[j])@ != "--jogo"@,
        decreases argumentos.len() - i,
    {
        if i + 1 < argumentos.len() && eh(&argumentos[i], "--jogo") {
            return Some(argumentos[i + 1].clone());
        }
        i = i + 1;
    }
    None
}

/// An address of ours that wraps an address opens exactly what the wrapped
/// address opens, when that one is of the internet or does not parse as one
/// of ours: the game at it, with its parameters, or nothing.
pub proof fn lei_endereco_embrulhado_abre_o_de_dentro(d: Seq<char>, x: Seq<char>)
    requires
        url_analisado(d) matches Some(v) && v.1 == "deathnote"@ && primeiro_valor(v.2, "u"@) == Some(x),
        !(url_analisado(x) matches Some(w) && w.1 == "deathnote"@),
    ensures
        alvo_de(d) == alvo_de(x),
{
}

/// An address that parses with an internet scheme opens itself, whatever
/// its query (empty or not): the game at it, with its query pairs as the
/// game's parameters. Whatever opens is of the internet.
pub proof fn lei_endereco_da_internet_abre_a_si(texto: Seq<char>)
    ensures
        match url_analisado(texto) {
            Some(v) => {
                (v.1 == "http"@ || v.1 == "https"@) ==> alvo_de(texto) == Some(v)
            },
            None => true,
        },
        match alvo_de(texto) {
            Some(w) => w.1 == "http"@ || w.1 == "https"@,
            None => true,
        },
        url_analisado(texto) is None ==> alvo_de(texto) is None,
{
    lema_esquemas_distintos();
}

/// The entry page is the site's game page, and navigations towards
/// addresses that begin with `"deathnote:"` are not followed: they open the
/// game.
pub proof fn lei_pagina_de_entrada()
    ensures
        ENDERECO_DA_ENTRADA@ == "https://deathnotestore.com.br/jogar/"@,
        PREFIXO_DO_JOGO@ == "deathnote:"@,
{
}

} // verus!
