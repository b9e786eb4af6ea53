//! The record of what happened.
//!
//! The record works by absence: at start the previous session's record is
//! set aside and a new one begins; while running the application notes where
//! it went; when it goes to the background (which is how every normal exit
//! begins) it notes that. At the next start, if the last line of the previous
//! session is not the trip to the background, the application died midway,
//! whatever the way.
//!
//! This module decides what is written and what is read; the files
//! themselves are opened, appended to and removed by the caller.
use vstd::prelude::*;

use crate::texto::{
    aparar, aparar_trecho, caracteres, contem, contem_exec, contem_no_trecho, eh_espaco,
    lema_aparar_junta, lema_aparar_nao_vazio, lema_aparar_trecho, lema_contem_junta,
    lema_contem_a_si, lema_contem_trecho, lema_nao_contem_antes, lema_nao_contem_depois,
    lema_ultima_linha_final, lema_ultima_linha_junta, lema_ultima_linha_nao_vazia,
    lema_ultima_linha_sem, lema_aparar_vazio, resto, sem_cr, sem_espaco_inicial, texto_de, ultima_linha,
    ultima_linha_exec,
};

verus! {

/// The crash mark. When it appears, the reason comes written next to it.
pub const MARCA_DE_QUEBRA: &'static str = "QUEBROU";

/// The clean exit mark: the last thing written by a session that ended well.
pub const MARCA_DE_FUNDO: &'static str = "foi pro fundo";

/// What is noted when the application comes back to the foreground.
pub const MARCA_DE_FRENTE: &'static str = "em primeiro plano";

/// What is noted when a session opens.
pub const SESSAO_ABERTA: &'static str = "sessao aberta";

/// The line that opens a record restarted because it grew too large.
pub const RECOMECO: &'static str = "(registro recomecado por tamanho)";

/// The size, in bytes, past which the record starts over.
pub const TETO: u64 = 262144;

/// The name of the current session's record, inside the folder.
pub const NOME_ATUAL: &'static str = "registro.txt";

/// The name of the previous session's record, inside the folder.
pub const NOME_ANTERIOR: &'static str = "registro-anterior.txt";

/// The decimal digit `d` (for `0 <= d < 10`).
pub open spec fn algarismo(d: int) -> char {
    seq!['0', '1', '2', '3', '4', '5', '6', '7', '8', '9'][d]
}

/// `n` written in decimal, as `Display` writes an unsigned integer.
pub open spec fn decimal(n: nat) -> Seq<char>
    decreases n,
{
    if n < 10 {
        seq![algarismo(n as int)]
    } else {
        decimal(n / 10) + seq![algarismo((n % 10) as int)]
    }
}

/// One line of the record: `"[{segundos}] {texto}\n"`.
pub open spec fn linha(segundos: u64, texto: Seq<char>) -> Seq<char> {
    seq!['['] + decimal(segundos as nat) + seq![']', ' '] + texto + seq!['\n']
}

/// The record starts over when its size is known and above the ceiling.
pub open spec fn deve_recomecar(tamanho: Option<u64>) -> bool {
    match tamanho {
        Some(n) => n > TETO,
        None => false,
    }
}

/// What one note appends to the record: the restart line when it starts
/// over, then the note's own line.
pub open spec fn escrita(texto: Seq<char>, tamanho: Option<u64>, segundos: u64) -> Seq<char> {
    if deve_recomecar(tamanho) {
        linha(segundos, RECOMECO@) + linha(segundos, texto)
    } else {
        linha(segundos, texto)
    }
}

/// The record after a note was carried out: emptied first when it starts
/// over, then the written text appended.
pub open spec fn conteudo_apos(antes: Seq<char>, recomecar: bool, escrito: Seq<char>) -> Seq<char> {
    (if recomecar {
        Seq::<char>::empty()
    } else {
        antes
    }) + escrito
}

/// `caminho` joined with the relative name `nome`, as `PathBuf::join` does
/// on Unix: a `'/'` goes between them unless `caminho` is empty or already
/// ends in one.
pub open spec fn juntar(caminho: Seq<char>, nome: Seq<char>) -> Seq<char> {
    if caminho.len() == 0 || caminho.last() == '/' {
        caminho + nome
    } else {
        caminho + seq!['/'] + nome
    }
}

/// The previous session's record as `anterior` gives it: none when it could
/// not be read or holds only white space.
pub open spec fn sessao_anterior(lido: Option<Seq<char>>) -> Option<Seq<char>> {
    match lido {
        Some(t) => if aparar(t).len() == 0 {
            None
        } else {
            Some(t)
        },
        None => None,
    }
}

/// Whether the previous session ended badly: its record holds the crash mark,
/// or its last line that is not blank is not the trip to the background.
pub open spec fn morreu(lido: Option<Seq<char>>) -> bool {
    match sessao_anterior(lido) {
        Some(t) => contem(t, MARCA_DE_QUEBRA@) || !contem(ultima_linha(t), MARCA_DE_FUNDO@),
        None => false,
    }
}

/// The free memory, in whole MiB, from the byte count that the system
/// reports; the system reports zero where there is no limit to measure (the
/// simulator), and that is "unavailable", not "out of memory".
pub open spec fn memoria_em_mb(bytes: usize) -> Option<u64> {
    if bytes == 0 {
        None
    } else {
        Some((bytes / 1048576) as u64)
    }
}

/// The note about the free memory.
pub open spec fn nota_de_memoria(mb: Option<u64>) -> Seq<char> {
    match mb {
        Some(n) => "memoria livre: "@ + decimal(n as nat) + " MB"@,
        None => "memoria livre: indisponivel (simulador)"@,
    }
}

/// The note written when the program crashes:
/// `"QUEBROU em {arquivo}:{linha}: {mensagem}"`, with fallbacks when the place
/// or the message is unknown.
pub open spec fn nota_de_quebra(lugar: Option<(Seq<char>, u32)>, mensagem: Option<Seq<char>>) -> Seq<
    char,
> {
    let onde = match lugar {
        Some((arquivo, l)) => arquivo + seq![':'] + decimal(l as nat),
        None => "lugar desconhecido"@,
    };
    let texto = match mensagem {
        Some(m) => m,
        None => "sem mensagem"@,
    };
    MARCA_DE_QUEBRA@ + " em "@ + onde + ": "@ + texto
}

/// What one note asks of the record file.
pub struct Anotacao {
    /// Remove the file before writing: it grew past the ceiling.
    pub recomecar: bool,
    /// What to append to the file, in one write.
    pub texto: String,
}

/// The decimal digit `d`.
fn algarismo_exec(d: u64) -> (c: char)
    requires
        d < 10,
    ensures
        c == algarismo(d as int),
{
    let digitos = ['0', '1', '2', '3', '4', '5', '6', '7', '8', '9'];
    proof {
        assert(digitos@ =~= seq!['0', '1', '2', '3', '4', '5', '6', '7', '8', '9']);
    }
    digitos[d as usize]
}

/// `n` written in decimal.
pub fn decimal_exec(n: u64) -> (r: Vec<char>)
    ensures
        r@ == decimal(n as nat),
{
    let mut m = n;
    let mut r: Vec<char> = Vec::new();
    loop
        invariant
            decimal(n as nat) == decimal(m as nat) + r@,
        decreases m,
    {
        let c = algarismo_exec(m % 10);
        r.insert(0, c);
        if m < 10 {
            assert(decimal(n as nat) =~= r@);
            return r;
        }
        assert(decimal(m as nat) == decimal((m / 10) as nat) + seq![c]);
        assert(decimal(n as nat) =~= decimal((m / 10) as nat) + r@);
        m = m / 10;
    }
}

/// Appends the characters of `t` to `v`.
fn estender(v: &mut Vec<char>, t: &Vec<char>)
    ensures
        final(v)@ == old(v)@ + t@,
{
    let mut i: usize = 0;
    while i < t.len()
        invariant
            i <= t.len(),
            v@ == old(v)@ + t@.subrange(0, i as int),
        decreases t.len() - i,
    {
        v.push(t[i]);
        assert(t@.subrange(0, i + 1) =~= t@.subrange(0, i as int).push(t@[i as int]));
        i = i + 1;
    }
    assert(t@.subrange(0, t.len() as int) =~= t@);
}

/// Appends one line of the record to `v`.
fn acrescentar_linha(v: &mut Vec<char>, segundos: u64, texto: &Vec<char>)
    ensures
        final(v)@ == old(v)@ + linha(segundos, texto@),
{
    v.push('[');
    let d = decimal_exec(segundos);
    estender(v, &d);
    v.push(']');
    v.push(' ');
    estender(v, texto);
    v.push('\n');
    assert(v@ =~= old(v)@ + linha(segundos, texto@));
}

/// Writes one note: decides, from the file's current size (none when it
/// could not be read) and the clock, whether the file starts over and what
/// is appended to it.
pub fn anotar(texto: &str, tamanho: Option<u64>, segundos: u64) -> (r: Anotacao)
    ensures
        r.recomecar == deve_recomecar(tamanho),
        r.texto@ == escrita(texto@, tamanho, segundos),
{
    let recomecar = match tamanho {
        Some(n) => n > TETO,
        None => false,
    };
    let mut escrito: Vec<char> = Vec::new();
    if recomecar {
        acrescentar_linha(&mut escrito, segundos, &caracteres(RECOMECO));
    }
    acrescentar_linha(&mut escrito, segundos, &caracteres(texto));
    proof {
        if recomecar {
            assert(escrito@ =~= linha(segundos, RECOMECO@) + linha(segundos, texto@));
        } else {
            assert(escrito@ =~= linha(segundos, texto@));
        }
    }
    Anotacao { recomecar, texto: texto_de(&escrito) }
}

/// Notes the trip to the background, the last thing a session that ends
/// well writes.
pub fn marcar_fundo(tamanho: Option<u64>, segundos: u64) -> (r: Anotacao)
    ensures
        r.recomecar == deve_recomecar(tamanho),
        r.texto@ == escrita(MARCA_DE_FUNDO@, tamanho, segundos),
{
    anotar(MARCA_DE_FUNDO, tamanho, segundos)
}

/// Notes the return to the foreground.
pub fn marcar_frente(tamanho: Option<u64>, segundos: u64) -> (r: Anotacao)
    ensures
        r.recomecar == deve_recomecar(tamanho),
        r.texto@ == escrita(MARCA_DE_FRENTE@, tamanho, segundos),
{
    anotar(MARCA_DE_FRENTE, tamanho, segundos)
}

/// Notes the opening of a session.
pub fn abrir_sessao(tamanho: Option<u64>, segundos: u64) -> (r: Anotacao)
    ensures
        r.recomecar == deve_recomecar(tamanho),
        r.texto@ == escrita(SESSAO_ABERTA@, tamanho, segundos),
{
    anotar(SESSAO_ABERTA, tamanho, segundos)
}

/// The free memory in whole MiB, from what `os_proc_available_memory`
/// reported; zero means there is no limit to measure.
pub fn memoria_livre_mb(bytes: usize) -> (r: Option<u64>)
    ensures
        r == memoria_em_mb(bytes),
        bytes == 0 ==> r is None,
        bytes > 0 ==> (r matches Some(m) && m * 1048576 <= bytes < (m + 1) * 1048576),
{
    if bytes == 0 {
        None
    } else {
        Some((bytes / 1048576) as u64)
    }
}

/// The text of the note about the free memory.
pub fn texto_da_memoria(mb: Option<u64>) -> (r: String)
    ensures
        r@ == nota_de_memoria(mb),
{
    match mb {
        Some(n) => {
            let mut v = caracteres("memoria livre: ");
            estender(&mut v, &decimal_exec(n));
            estender(&mut v, &caracteres(" MB"));
            texto_de(&v)
        },
        None => texto_de(&caracteres("memoria livre: indisponivel (simulador)")),
    }
}

/// Notes the free memory, from the byte count that the system reported.
pub fn anotar_memoria(bytes_livres: usize, tamanho: Option<u64>, segundos: u64) -> (r: Anotacao)
    ensures
        r.recomecar == deve_recomecar(tamanho),
        r.texto@ == escrita(nota_de_memoria(memoria_em_mb(bytes_livres)), tamanho, segundos),
{
    let texto = texto_da_memoria(memoria_livre_mb(bytes_livres));
    anotar(texto.as_str(), tamanho, segundos)
}

/// The note for a crash, from its place (file and line) and its message,
/// when known.
pub fn descrever_quebra(lugar: Option<(String, u32)>, mensagem: Option<String>) -> (r: String)
    ensures
        r@ == nota_de_quebra(
            match lugar {
                Some((a, l)) => Some((a@, l)),
                None => None,
            },
            match mensagem {
                Some(m) => Some(m@),
                None => None,
            },
        ),
{
    let mut v = caracteres(MARCA_DE_QUEBRA);
    estender(&mut v, &caracteres(" em "));
    match lugar {
        Some((arquivo, l)) => {
            estender(&mut v, &caracteres(arquivo.as_str()));
            v.push(':');
            estender(&mut v, &decimal_exec(l as u64));
        },
        None => estender(&mut v, &caracteres("lugar desconhecido")),
    }
    estender(&mut v, &caracteres(": "));
    match mensagem {
        Some(m) => estender(&mut v, &caracteres(m.as_str())),
        None => estender(&mut v, &caracteres("sem mensagem")),
    }
    texto_de(&v)
}

/// `caminho` joined with the relative name `nome`.
fn juntar_exec(caminho: &str, nome: &str) -> (r: String)
    ensures
        r@ == juntar(caminho@, nome@),
{
    let mut v = caracteres(caminho);
    if v.len() > 0 && v[v.len() - 1] != '/' {
        v.push('/');
    }
    estender(&mut v, &caracteres(nome));
    texto_de(&v)
}

/// The current session's record, inside the folder (none when the folder is
/// not available).
pub fn caminho_atual(pasta: Option<String>) -> (r: Option<String>)
    ensures
        match pasta {
            Some(p) => r matches Some(c) && c@ == juntar(p@, NOME_ATUAL@),
            None => r is None,
        },
{
    match pasta {
        Some(p) => Some(juntar_exec(p.as_str(), NOME_ATUAL)),
        None => None,
    }
}

/// The previous session's record, inside the folder (none when the folder
/// is not available).
pub fn caminho_anterior(pasta: Option<String>) -> (r: Option<String>)
    ensures
        match pasta {
            Some(p) => r matches Some(c) && c@ == juntar(p@, NOME_ANTERIOR@),
            None => r is None,
        },
{
    match pasta {
        Some(p) => Some(juntar_exec(p.as_str(), NOME_ANTERIOR)),
        None => None,
    }
}

/// The previous session's record, whole, from what reading its file gave
/// (none when it could not be read); none too when it holds only white
/// space.
pub fn anterior(lido: Option<String>) -> (r: Option<String>)
    ensures
        match r {
            Some(t) => sessao_anterior(
                match lido {
                    Some(l) => Some(l@),
                    None => None,
                },
            ) == Some(t@),
            None => sessao_anterior(
                match lido {
                    Some(l) => Some(l@),
                    None => None,
                },
            ) is None,
        },
        match lido {
            None => r is None,
            Some(l) => if forall|i: int| 0 <= i < l@.len() ==> eh_espaco(#[trigger] l@[i]) {
                r is None
            } else {
                r == Some(l)
            },
        },
{
    match lido {
        Some(t) => {
            let v = caracteres(t.as_str());
            let (a, b) = aparar_trecho(&v, 0, v.len());
            assert(v@.subrange(0, v.len() as int) =~= v@);
            proof {
                lema_aparar_vazio(t@);
            }
            if a == b {
                None
            } else {
                Some(t)
            }
        },
        None => None,
    }
}

/// Whether the previous session ended badly, from what reading its record
/// gave: it holds the crash mark, or its last line that is not blank is not
/// the trip to the background. No record, or a blank one, is no death.
pub fn anterior_morreu(lido: Option<String>) -> (r: bool)
    ensures
        r == morreu(
            match lido {
                Some(l) => Some(l@),
                None => None,
            },
        ),
{
    let texto = match anterior(lido) {
        Some(t) => t,
        None => return false,
    };
    let v = caracteres(texto.as_str());
    if contem_exec(&v, &caracteres(MARCA_DE_QUEBRA)) {
        return true;
    }
    let (a, b) = ultima_linha_exec(&v);
    !contem_no_trecho(&v, a, b, &caracteres(MARCA_DE_FUNDO))
}


/// The start of a line of the record: `"[{segundos}] "`.
pub open spec fn cabeca(segundos: u64) -> Seq<char> {
    seq!['['] + decimal(segundos as nat) + seq![']', ' ']
}

/// The digits of a decimal number are `'0'` to `'9'`.
proof fn lema_decimal(n: nat)
    ensures
        decimal(n).len() > 0,
        forall|i: int| 0 <= i < decimal(n).len() ==> 48 <= #[trigger] (decimal(n)[i] as u32) <= 57,
    decreases n,
{
    let d = seq!['0', '1', '2', '3', '4', '5', '6', '7', '8', '9'];
    assert(forall|k: int| 0 <= k < 10 ==> 48 <= #[trigger] (d[k] as u32) <= 57);
    if n >= 10 {
        lema_decimal(n / 10);
        let a = decimal(n / 10);
        let b = seq![algarismo((n % 10) as int)];
        assert forall|i: int| 0 <= i < decimal(n).len() implies 48 <= #[trigger] (
        decimal(n)[i] as u32) <= 57 by {
            if i < a.len() {
                assert(decimal(n)[i] == a[i]);
            } else {
                assert(decimal(n)[i] == b[i - a.len()]);
            }
        }
    }
}

/// The start of a line holds no letter, no `'\n'`, and begins with `'['`.
proof fn lema_cabeca(segundos: u64)
    ensures
        cabeca(segundos).len() >= 4,
        cabeca(segundos)[0] == '[',
        forall|i: int|
            0 <= i < cabeca(segundos).len() ==> {
                let c = #[trigger] cabeca(segundos)[i];
                &&& c != 'U'
                &&& c != 'f'
                &&& c != '\n'
            },
{
    lema_decimal(segundos as nat);
    let d = decimal(segundos as nat);
    let h = cabeca(segundos);
    assert forall|i: int| 0 <= i < h.len() implies {
        let c = #[trigger] h[i];
        &&& c != 'U'
        &&& c != 'f'
        &&& c != '\n'
    } by {
        if i == 0 {
        } else if i <= d.len() {
            assert(h[i] == d[i - 1]);
            assert(48 <= (d[i - 1] as u32) <= 57);
        } else {
        }
    }
}

/// The fixed texts, character by character.
proof fn lema_textos_fixos()
    ensures
        MARCA_DE_QUEBRA@ == seq!['Q', 'U', 'E', 'B', 'R', 'O', 'U'],
        MARCA_DE_FUNDO@ == seq!['f', 'o', 'i', ' ', 'p', 'r', 'o', ' ', 'f', 'u', 'n', 'd', 'o'],
        forall|i: int|
            0 <= i < RECOMECO@.len() ==> #[trigger] RECOMECO@[i] != 'U' && RECOMECO@[i] != '\n',
{
    reveal_strlit("QUEBROU");
    reveal_strlit("foi pro fundo");
    reveal_strlit("(registro recomecado por tamanho)");
    assert(MARCA_DE_QUEBRA@ =~= seq!['Q', 'U', 'E', 'B', 'R', 'O', 'U']);
    assert(MARCA_DE_FUNDO@ =~= seq!['f', 'o', 'i', ' ', 'p', 'r', 'o', ' ', 'f', 'u', 'n', 'd', 'o']);
}

/// A line of the record is its start, its text and a `'\n'`; it holds no
/// crash mark when its text holds no `'U'`.
proof fn lema_linha(segundos: u64, texto: Seq<char>)
    ensures
        linha(segundos, texto) == cabeca(segundos) + texto + seq!['\n'],
        (forall|i: int| 0 <= i < texto.len() ==> texto[i] != 'U') ==> (forall|i: int|
            0 <= i < linha(segundos, texto).len() ==> #[trigger] linha(segundos, texto)[i] != 'U'),
{
    lema_cabeca(segundos);
    let h = cabeca(segundos);
    let l = linha(segundos, texto);
    assert(l =~= h + texto + seq!['\n']);
    if forall|i: int| 0 <= i < texto.len() ==> texto[i] != 'U' {
        assert forall|i: int| 0 <= i < l.len() implies #[trigger] l[i] != 'U' by {
            if i < h.len() {
                assert(l[i] == h[i]);
            } else if i < h.len() + texto.len() {
                assert(l[i] == texto[i - h.len()]);
            }
        }
    }
}

/// The record a note leaves is what it kept, then the note's start and text,
/// then a `'\n'`.
proof fn lema_forma_do_conteudo(
    antes: Seq<char>,
    texto: Seq<char>,
    tamanho: Option<u64>,
    segundos: u64,
)
    ensures
        conteudo_apos(antes, deve_recomecar(tamanho), escrita(texto, tamanho, segundos)) == base_do_conteudo(
            antes,
            tamanho,
            segundos,
        ) + (cabeca(segundos) + texto) + seq!['\n'],
        !deve_recomecar(tamanho) ==> base_do_conteudo(antes, tamanho, segundos) == antes,
        deve_recomecar(tamanho) ==> !contem(base_do_conteudo(antes, tamanho, segundos), MARCA_DE_QUEBRA@),
        deve_recomecar(tamanho) ==> base_do_conteudo(antes, tamanho, segundos).last() == '\n',
{
    lema_linha(segundos, texto);
    lema_linha(segundos, RECOMECO@);
    lema_textos_fixos();
    let b = base_do_conteudo(antes, tamanho, segundos);
    if deve_recomecar(tamanho) {
        assert(conteudo_apos(antes, true, escrita(texto, tamanho, segundos)) =~= b + (cabeca(segundos)
            + texto) + seq!['\n']);
        assert(Seq::<char>::empty() + b =~= b);
        lema_nao_contem_depois(Seq::<char>::empty(), b, MARCA_DE_QUEBRA@);
    } else {
        assert(conteudo_apos(antes, false, escrita(texto, tamanho, segundos)) =~= b + (cabeca(
            segundos,
        ) + texto) + seq!['\n']);
    }
}

/// What the record kept before the note's own line: the restart line when it
/// starts over, else what it held.
pub open spec fn base_do_conteudo(antes: Seq<char>, tamanho: Option<u64>, segundos: u64) -> Seq<char> {
    if deve_recomecar(tamanho) {
        linha(segundos, RECOMECO@)
    } else {
        antes
    }
}

/// A session whose last note was the trip to the background did not die,
/// unless the record it kept already held a crash.
///
/// This is how every normal exit, closing from the app switcher included,
/// leaves the record: whoever only closed the application is not accused.
pub proof fn lei_quem_foi_pro_fundo_nao_morreu(antes: Seq<char>, tamanho: Option<u64>, segundos: u64)
    requires
        deve_recomecar(tamanho) || !contem(antes, MARCA_DE_QUEBRA@),
    ensures
        !morreu(
            Some(
                conteudo_apos(
                    antes,
                    deve_recomecar(tamanho),
                    escrita(MARCA_DE_FUNDO@, tamanho, segundos),
                ),
            ),
        ),
{
    let fundo = MARCA_DE_FUNDO@;
    let quebra = MARCA_DE_QUEBRA@;
    lema_textos_fixos();
    lema_forma_do_conteudo(antes, fundo, tamanho, segundos);
    lema_cabeca(segundos);
    let h = cabeca(segundos);
    let b = base_do_conteudo(antes, tamanho, segundos);
    let y = h + fundo;
    let c = conteudo_apos(antes, deve_recomecar(tamanho), escrita(fundo, tamanho, segundos));
    assert(c == b + y + seq!['\n']);
    // No crash mark.
    let z = y + seq!['\n'];
    assert forall|i: int| 0 <= i < z.len() implies z[i] != quebra.last() by {
        if i < h.len() {
            assert(z[i] == h[i]);
        } else if i < y.len() {
            assert(z[i] == fundo[i - h.len()]);
        }
    }
    lema_nao_contem_depois(b, z, quebra);
    assert(b + z =~= c);
    // The last line is the background mark.
    assert forall|j: int| 0 <= j < y.len() implies y[j] != '\n' by {
        if j < h.len() {
            assert(y[j] == h[j]);
        } else {
            assert(y[j] == fundo[j - h.len()]);
        }
    }
    let r = resto(b);
    assert((r + y).last() == 'o');
    assert(sem_cr(r + y) == r + y);
    assert(y[0] == '[');
    lema_aparar_junta(r, y);
    lema_ultima_linha_final(b, y);
    assert(y.subrange(h.len() as int, y.len() as int) =~= fundo);
    lema_contem_a_si(fundo);
    lema_contem_trecho(y, h.len() as int, y.len() as int, fundo);
    lema_contem_junta(sem_espaco_inicial(r), y, fundo);
    // The record is not blank.
    assert(c[b.len() as int] == '[');
    lema_aparar_nao_vazio(c, b.len() as int);
}

/// A session whose last note was anything but the trip to the background
/// died midway, whatever the way: nothing came after that note.
///
/// The record kept before the note ends with a full line, as every note
/// leaves it.
pub proof fn lei_quem_nao_foi_pro_fundo_morreu(
    antes: Seq<char>,
    texto: Seq<char>,
    tamanho: Option<u64>,
    segundos: u64,
)
    requires
        deve_recomecar(tamanho) || antes.len() == 0 || antes.last() == '\n',
        !contem(texto, MARCA_DE_FUNDO@),
    ensures
        morreu(Some(conteudo_apos(antes, deve_recomecar(tamanho), escrita(texto, tamanho, segundos)))),
{
    let fundo = MARCA_DE_FUNDO@;
    lema_textos_fixos();
    lema_forma_do_conteudo(antes, texto, tamanho, segundos);
    lema_cabeca(segundos);
    let h = cabeca(segundos);
    let b = base_do_conteudo(antes, tamanho, segundos);
    let z = (h + texto) + seq!['\n'];
    let c = conteudo_apos(antes, deve_recomecar(tamanho), escrita(texto, tamanho, segundos));
    assert(c == b + z);
    // The note's own lines hold no background mark, and one of them is not
    // blank: they end the record.
    assert forall|i: int| 0 <= i < h.len() implies h[i] != fundo[0] by {
        assert(h[i] != 'f');
    }
    lema_nao_contem_antes(h, texto, fundo);
    lema_nao_contem_depois(h + texto, seq!['\n'], fundo);
    lema_ultima_linha_sem(z, fundo);
    assert(z[0] == '[');
    lema_ultima_linha_nao_vazia(z);
    lema_ultima_linha_junta(b, z);
    // The record is not blank.
    assert(c[b.len() as int] == '[');
    lema_aparar_nao_vazio(c, b.len() as int);
}

/// A crash mark in the record that a note keeps stays there: the session
/// died, whatever it noted afterwards.
pub proof fn lei_quebra_permanece(antes: Seq<char>, texto: Seq<char>, tamanho: Option<u64>, segundos: u64)
    requires
        !deve_recomecar(tamanho),
        contem(antes, MARCA_DE_QUEBRA@),
    ensures
        morreu(Some(conteudo_apos(antes, deve_recomecar(tamanho), escrita(texto, tamanho, segundos)))),
{
    lema_forma_do_conteudo(antes, texto, tamanho, segundos);
    lema_cabeca(segundos);
    let c = conteudo_apos(antes, deve_recomecar(tamanho), escrita(texto, tamanho, segundos));
    let z = (cabeca(segundos) + texto) + seq!['\n'];
    assert(c == antes + z);
    lema_contem_junta(antes, z, MARCA_DE_QUEBRA@);
    assert(c[antes.len() as int] == '[');
    lema_aparar_nao_vazio(c, antes.len() as int);
}

/// The note of a crash marks the session as dead, whatever else the record
/// holds.
pub proof fn lei_nota_de_quebra_marca_morte(
    antes: Seq<char>,
    lugar: Option<(Seq<char>, u32)>,
    mensagem: Option<Seq<char>>,
    tamanho: Option<u64>,
    segundos: u64,
)
    ensures
        morreu(
            Some(
                conteudo_apos(
                    antes,
                    deve_recomecar(tamanho),
                    escrita(nota_de_quebra(lugar, mensagem), tamanho, segundos),
                ),
            ),
        ),
{
    let nota = nota_de_quebra(lugar, mensagem);
    let quebra = MARCA_DE_QUEBRA@;
    lema_forma_do_conteudo(antes, nota, tamanho, segundos);
    lema_cabeca(segundos);
    let h = cabeca(segundos);
    let b = base_do_conteudo(antes, tamanho, segundos);
    let c = conteudo_apos(antes, deve_recomecar(tamanho), escrita(nota, tamanho, segundos));
    assert(c == b + (h + nota) + seq!['\n']);
    assert(nota.subrange(0, quebra.len() as int) =~= quebra);
    lema_contem_a_si(quebra);
    lema_contem_trecho(nota, 0, quebra.len() as int, quebra);
    lema_contem_junta(h, nota, quebra);
    lema_contem_junta(b, h + nota, quebra);
    lema_contem_junta(b + (h + nota), seq!['\n'], quebra);
    assert(c[b.len() as int] == '[');
    lema_aparar_nao_vazio(c, b.len() as int);
}

/// Every note leaves the record ending with a full line, and starts it over
/// exactly when its size is known and past the ceiling.
pub proof fn lei_registro_termina_em_linha(
    antes: Seq<char>,
    texto: Seq<char>,
    tamanho: Option<u64>,
    segundos: u64,
)
    ensures
        conteudo_apos(antes, deve_recomecar(tamanho), escrita(texto, tamanho, segundos)).last()
            == '\n',
        deve_recomecar(tamanho) <==> (tamanho is Some && tamanho->0 > TETO),
{
    lema_forma_do_conteudo(antes, texto, tamanho, segundos);
}

/// No record, or a blank one, accuses no death.
pub proof fn lei_sem_registro_sem_morte(t: Seq<char>)
    requires
        forall|i: int| 0 <= i < t.len() ==> eh_espaco(#[trigger] t[i]),
    ensures
        !morreu(None),
        !morreu(Some(t)),
{
    lema_aparar_trecho(t);
    let (a, b) = choose|a: int, b: int| 0 <= a <= b <= t.len() && aparar(t) == t.subrange(a, b);
    if a < b {
        crate::texto::lema_sem_espaco_inicial(t);
        let k = choose|k: int|
            0 <= k <= t.len() && sem_espaco_inicial(t) == t.subrange(k, t.len() as int) && (forall|
                j: int,
            | 0 <= j < k ==> eh_espaco(#[trigger] t[j])) && (k < t.len() ==> !eh_espaco(t[k]));
        if k < t.len() {
            assert(eh_espaco(t[k]));
        }
        assert(sem_espaco_inicial(t) =~= Seq::<char>::empty());
        assert(crate::texto::sem_espaco_final(Seq::<char>::empty()) == Seq::<char>::empty());
    }
}

/// The free memory is the whole number of MiB in the bytes reported, and
/// zero bytes is "unavailable", never "no memory left".
pub proof fn lei_memoria_em_mb_inteiros(bytes: usize)
    ensures
        bytes == 0 ==> memoria_em_mb(bytes) is None,
        bytes > 0 ==> (memoria_em_mb(bytes) matches Some(m) && m * 1048576 <= bytes < (m + 1)
            * 1048576),
{
}

/// The number that a string of decimal digits writes.
pub open spec fn valor_decimal(s: Seq<char>) -> int
    decreases s.len(),
{
    if s.len() == 0 {
        0
    } else {
        valor_decimal(s.drop_last()) * 10 + ((s.last() as u32) - 48)
    }
}

/// `decimal(n)` writes `n` in base ten, with digits `'0'` to `'9'` only and
/// no leading zero: the way `Display` writes an unsigned integer.
pub proof fn lei_decimal_escreve_o_numero(n: nat)
    ensures
        valor_decimal(decimal(n)) == n,
        decimal(n).len() > 0,
        forall|i: int| 0 <= i < decimal(n).len() ==> 48 <= #[trigger] (decimal(n)[i] as u32) <= 57,
        n > 0 ==> decimal(n)[0] != '0',
    decreases n,
{
    lema_decimal(n);
    let d = seq!['0', '1', '2', '3', '4', '5', '6', '7', '8', '9'];
    assert(forall|k: int| 0 <= k < 10 ==> #[trigger] (d[k] as u32) == 48 + k) by {
        assert(('0' as u32) == 48);
    }
    if n < 10 {
        assert(decimal(n) == seq![algarismo(n as int)]);
        assert(seq![algarismo(n as int)].drop_last() =~= Seq::<char>::empty());
        assert((algarismo(n as int) as u32) == 48 + n);
        assert(valor_decimal(Seq::<char>::empty()) == 0);
        assert(valor_decimal(seq![algarismo(n as int)]) == n);
    } else {
        lei_decimal_escreve_o_numero(n / 10);
        let a = decimal(n / 10);
        let c = algarismo((n % 10) as int);
        assert(decimal(n) == a + seq![c]);
        assert((a + seq![c]).drop_last() =~= a);
        assert((c as u32) == 48 + n % 10);
        assert((a + seq![c])[0] == a[0]);
        assert((a + seq![c]).last() == c);
        assert(valor_decimal(a + seq![c]) == valor_decimal(a) * 10 + ((c as u32) - 48));
        assert((n / 10) * 10 + n % 10 == n);
    }
}

/// The note of a crash names the mark, the place with its full line number,
/// and the message; an unknown place or message is said so.
pub proof fn lei_nota_de_quebra_tem_lugar_e_mensagem(
    arquivo: Seq<char>,
    l: u32,
    mensagem: Seq<char>,
)
    ensures
        nota_de_quebra(Some((arquivo, l)), Some(mensagem)) == "QUEBROU em "@ + arquivo + ":"@
            + decimal(l as nat) + ": "@ + mensagem,
        valor_decimal(decimal(l as nat)) == l,
        nota_de_quebra(None, Some(mensagem)) == "QUEBROU em lugar desconhecido: "@ + mensagem,
        nota_de_quebra(Some((arquivo, l)), None) == "QUEBROU em "@ + arquivo + ":"@ + decimal(
            l as nat,
        ) + ": sem mensagem"@,
{
    lei_decimal_escreve_o_numero(l as nat);
    reveal_strlit("QUEBROU");
    reveal_strlit(" em ");
    reveal_strlit("QUEBROU em ");
    reveal_strlit(":");
    reveal_strlit(": ");
    reveal_strlit("lugar desconhecido");
    reveal_strlit("QUEBROU em lugar desconhecido: ");
    reveal_strlit("sem mensagem");
    reveal_strlit(": sem mensagem");
    assert(MARCA_DE_QUEBRA@ + " em "@ =~= "QUEBROU em "@);
    assert(seq![':'] =~= ":"@);
    assert(nota_de_quebra(Some((arquivo, l)), Some(mensagem)) =~= "QUEBROU em "@ + arquivo + ":"@
        + decimal(l as nat) + ": "@ + mensagem);
    assert(nota_de_quebra(None, Some(mensagem)) =~= "QUEBROU em lugar desconhecido: "@ + mensagem);
    assert(nota_de_quebra(Some((arquivo, l)), None) =~= "QUEBROU em "@ + arquivo + ":"@ + decimal(
        l as nat,
    ) + ": sem mensagem"@);
}

/// The previous session's record is given whole, unchanged, whenever it
/// holds anything but white space; otherwise there is none.
pub proof fn lei_anterior_inteiro(t: Seq<char>)
    ensures
        sessao_anterior(None) is None,
        (exists|i: int| 0 <= i < t.len() && !eh_espaco(#[trigger] t[i])) ==> sessao_anterior(Some(t))
            == Some(t),
        (forall|i: int| 0 <= i < t.len() ==> eh_espaco(#[trigger] t[i])) ==> sessao_anterior(
            Some(t),
        ) is None,
{
    lema_aparar_vazio(t);
}

/// What a note appends, written out: `"[{seconds}] {text}\n"`, preceded by
/// `"[{seconds}] (registro recomecado por tamanho)\n"` exactly when the
/// file's size is known and above 256 KiB; the fixed notes and marks are
/// the texts below, and the two files are `registro.txt` and
/// `registro-anterior.txt` inside the folder.
pub proof fn lei_textos_do_registro(texto: Seq<char>, tamanho: Option<u64>, segundos: u64, pasta: Seq<char>)
    ensures
        deve_recomecar(tamanho) <==> (tamanho is Some && tamanho->0 > 262144),
        !deve_recomecar(tamanho) ==> escrita(texto, tamanho, segundos) == "["@ + decimal(
            segundos as nat,
        ) + "] "@ + texto + "\n"@,
        deve_recomecar(tamanho) ==> escrita(texto, tamanho, segundos) == "["@ + decimal(
            segundos as nat,
        ) + "] (registro recomecado por tamanho)\n["@ + decimal(segundos as nat) + "] "@ + texto
            + "\n"@,
        MARCA_DE_QUEBRA@ == "QUEBROU"@,
        MARCA_DE_FUNDO@ == "foi pro fundo"@,
        MARCA_DE_FRENTE@ == "em primeiro plano"@,
        SESSAO_ABERTA@ == "sessao aberta"@,
        nota_de_memoria(None) == "memoria livre: indisponivel (simulador)"@,
        forall|n: u64| #[trigger]
            nota_de_memoria(Some(n)) == "memoria livre: "@ + decimal(n as nat) + " MB"@,
        pasta.len() > 0 && pasta.last() != '/' ==> juntar(pasta, NOME_ATUAL@) == pasta
            + "/registro.txt"@ && juntar(pasta, NOME_ANTERIOR@) == pasta + "/registro-anterior.txt"@,
        pasta.len() == 0 || pasta.last() == '/' ==> juntar(pasta, NOME_ATUAL@) == pasta
            + "registro.txt"@ && juntar(pasta, NOME_ANTERIOR@) == pasta + "registro-anterior.txt"@,
{
    reveal_strlit("[");
    reveal_strlit("] ");
    reveal_strlit("\n");
    reveal_strlit("(registro recomecado por tamanho)");
    reveal_strlit("] (registro recomecado por tamanho)\n[");
    reveal_strlit("registro.txt");
    reveal_strlit("/registro.txt");
    reveal_strlit("registro-anterior.txt");
    reveal_strlit("/registro-anterior.txt");
    let d = decimal(segundos as nat);
    assert(linha(segundos, texto) =~= "["@ + d + "] "@ + texto + "\n"@);
    assert(linha(segundos, RECOMECO@) + linha(segundos, texto) =~= "["@ + d
        + "] (registro recomecado por tamanho)\n["@ + d + "] "@ + texto + "\n"@);
    if pasta.len() > 0 && pasta.last() != '/' {
        assert(pasta + seq!['/'] + NOME_ATUAL@ =~= pasta + "/registro.txt"@);
        assert(pasta + seq!['/'] + NOME_ANTERIOR@ =~= pasta + "/registro-anterior.txt"@);
    }
}

} // verus!
