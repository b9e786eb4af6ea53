//! Text as sequences of characters: searching, trimming and splitting into
//! lines, with the meaning that `str::contains`, `str::trim` and `str::lines`
//! give them.
use vstd::prelude::*;

verus! {

/// `t` holds `p` as a contiguous piece (what `str::contains` answers).
pub open spec fn contem(t: Seq<char>, p: Seq<char>) -> bool {
    exists|i: int| 0 <= i <= t.len() - p.len() && #[trigger] t.subrange(i, i + p.len()) == p
}

/// The characters that `char::is_whitespace` accepts (Unicode `White_Space`).
pub open spec fn eh_espaco(c: char) -> bool {
    let n = c as u32;
    ||| 0x9 <= n <= 0xd
    ||| n == 0x20
    ||| n == 0x85
    ||| n == 0xa0
    ||| n == 0x1680
    ||| 0x2000 <= n <= 0x200a
    ||| n == 0x2028
    ||| n == 0x2029
    ||| n == 0x202f
    ||| n == 0x205f
    ||| n == 0x3000
}

/// `t` without its leading white space.
pub open spec fn sem_espaco_inicial(t: Seq<char>) -> Seq<char>
    decreases t.len(),
{
    if t.len() > 0 && eh_espaco(t[0]) {
        sem_espaco_inicial(t.drop_first())
    } else {
        t
    }
}

/// `t` without its trailing white space.
pub open spec fn sem_espaco_final(t: Seq<char>) -> Seq<char>
    decreases t.len(),
{
    if t.len() > 0 && eh_espaco(t.last()) {
        sem_espaco_final(t.drop_last())
    } else {
        t
    }
}

/// `t` without white space at either end (what `str::trim` gives).
pub open spec fn aparar(t: Seq<char>) -> Seq<char> {
    sem_espaco_final(sem_espaco_inicial(t))
}

/// Index of the first `'\n'` in `t`, or `t.len()` when there is none.
pub open spec fn fim_da_linha(t: Seq<char>) -> nat
    decreases t.len(),
{
    if t.len() == 0 {
        0
    } else if t[0] == '\n' {
        0
    } else {
        1 + fim_da_linha(t.drop_first())
    }
}

/// A line that ended in `"\r\n"` loses its `'\r'`.
pub open spec fn sem_cr(l: Seq<char>) -> Seq<char> {
    if l.len() > 0 && l.last() == '\r' {
        l.drop_last()
    } else {
        l
    }
}

/// The lines of `t`, as `str::lines` yields them: split at each `'\n'`, a
/// `'\r'` just before the `'\n'` dropped, and no empty line after a final
/// `'\n'`.
pub open spec fn linhas(t: Seq<char>) -> Seq<Seq<char>>
    decreases t.len(),
{
    if t.len() == 0 {
        seq![]
    } else {
        let k = fim_da_linha(t);
        proof {
            lema_fim_da_linha(t);
        }
        if k >= t.len() {
            seq![t]
        } else {
            seq![sem_cr(t.subrange(0, k as int))] + linhas(t.subrange(k + 1int, t.len() as int))
        }
    }
}

/// The last element of `s` that is not empty, or the empty sequence.
pub open spec fn ultima_nao_vazia(s: Seq<Seq<char>>) -> Seq<char>
    decreases s.len(),
{
    if s.len() == 0 {
        seq![]
    } else if s.last().len() > 0 {
        s.last()
    } else {
        ultima_nao_vazia(s.drop_last())
    }
}

/// The last line of `t` that is not blank, trimmed; empty when there is none.
pub open spec fn ultima_linha(t: Seq<char>) -> Seq<char> {
    ultima_nao_vazia(linhas(t).map_values(|l: Seq<char>| aparar(l)))
}

/// `u` when it is not empty, else `b`.
pub open spec fn combinar(b: Seq<char>, u: Seq<char>) -> Seq<char> {
    if u.len() > 0 {
        u
    } else {
        b
    }
}

/// The text after the last `'\n'` of `t` (all of `t` when it has none).
pub open spec fn resto(t: Seq<char>) -> Seq<char>
    decreases t.len(),
{
    let k = fim_da_linha(t);
    proof {
        lema_fim_da_linha(t);
    }
    if k >= t.len() {
        t
    } else {
        resto(t.subrange(k + 1int, t.len() as int))
    }
}

pub proof fn lema_fim_da_linha(t: Seq<char>)
    ensures
        fim_da_linha(t) <= t.len(),
        fim_da_linha(t) < t.len() ==> t[fim_da_linha(t) as int] == '\n',
        forall|j: int| 0 <= j < fim_da_linha(t) ==> t[j] != '\n',
    decreases t.len(),
{
    if t.len() > 0 && t[0] != '\n' {
        lema_fim_da_linha(t.drop_first());
        assert forall|j: int| 0 <= j < fim_da_linha(t) implies t[j] != '\n' by {
            if j > 0 {
                assert(t[j] == t.drop_first()[j - 1]);
            }
        }
    }
}

/// The first `'\n'` is where no earlier character is one.
pub proof fn lema_fim_da_linha_em(t: Seq<char>, k: int)
    requires
        0 <= k <= t.len(),
        k < t.len() ==> t[k] == '\n',
        forall|j: int| 0 <= j < k ==> t[j] != '\n',
    ensures
        fim_da_linha(t) == k,
{
    lema_fim_da_linha(t);
    if fim_da_linha(t) < k {
        assert(t[fim_da_linha(t) as int] == '\n');
    }
    if fim_da_linha(t) > k {
        assert(t[k] == '\n');
    }
}


/// The characters of `s`, in order.
pub fn caracteres(s: &str) -> (r: Vec<char>)
    ensures
        r@ == s@,
{
    let mut r: Vec<char> = Vec::new();
    for c in it: s.chars()
        invariant
            r@ == it.seq().take(it.index() as int),
    {
        r.push(c);
    }
    r
}

/// The string made of the characters of `cs`, in order (`String`'s
/// `FromIterator<&char>`); the contract claims that it holds exactly them.
#[verifier::external_body]
pub(crate) fn texto_de(cs: &Vec<char>) -> (r: String)
    ensures
        r@ == cs@,
{
    cs.iter().collect()
}

/// Whether `p` stands in `t` from position `i` on.
pub fn ocorre_em(t: &Vec<char>, i: usize, p: &Vec<char>) -> (r: bool)
    requires
        i + p.len() <= t.len(),
    ensures
        r == (t@.subrange(i as int, i + p.len()) == p@),
{
    let mut j: usize = 0;
    while j < p.len()
        invariant
            j <= p.len(),
            i + p.len() <= t.len(),
            forall|k: int| 0 <= k < j ==> t@[i + k] == p@[k],
        decreases p.len() - j,
    {
        if t[i + j] != p[j] {
            assert(t@.subrange(i as int, i + p.len())[j as int] != p@[j as int]);
            return false;
        }
        j = j + 1;
    }
    assert(t@.subrange(i as int, i + p.len()) =~= p@);
    true
}

/// Whether the piece `t[ini..fim]` holds `p`.
pub fn contem_no_trecho(t: &Vec<char>, ini: usize, fim: usize, p: &Vec<char>) -> (r: bool)
    requires
        ini <= fim <= t.len(),
    ensures
        r == contem(t@.subrange(ini as int, fim as int), p@),
{
    let ghost u = t@.subrange(ini as int, fim as int);
    if p.len() > fim - ini {
        return false;
    }
    let ultimo: usize = fim - p.len();
    let mut i: usize = ini;
    loop
        invariant
            ini <= i <= ultimo,
            ultimo + p.len() == fim,
            fim <= t.len(),
            u == t@.subrange(ini as int, fim as int),
            forall|k: int| 0 <= k < i - ini ==> #[trigger] u.subrange(k, k + p.len()) != p@,
        decreases ultimo - i,
    {
        assert(u.subrange(i - ini, i - ini + p.len()) =~= t@.subrange(i as int, i + p.len()));
        if ocorre_em(t, i, p) {
            return true;
        }
        if i == ultimo {
            return false;
        }
        i = i + 1;
    }
}

/// Whether `t` holds `p`.
pub fn contem_exec(t: &Vec<char>, p: &Vec<char>) -> (r: bool)
    ensures
        r == contem(t@, p@),
{
    assert(t@.subrange(0, t.len() as int) =~= t@);
    contem_no_trecho(t, 0, t.len(), p)
}

/// `char::is_whitespace`.
pub fn eh_espaco_exec(c: char) -> (r: bool)
    ensures
        r == eh_espaco(c),
{
    let n = c as u32;
    (0x9 <= n && n <= 0xd) || n == 0x20 || n == 0x85 || n == 0xa0 || n == 0x1680 || (0x2000 <= n
        && n <= 0x200a) || n == 0x2028 || n == 0x2029 || n == 0x202f || n == 0x205f || n == 0x3000
}

/// The bounds, inside `t[ini..fim]`, of that piece with white space trimmed
/// from both ends.
pub fn aparar_trecho(t: &Vec<char>, ini: usize, fim: usize) -> (r: (usize, usize))
    requires
        ini <= fim <= t.len(),
    ensures
        ini <= r.0 <= r.1 <= fim,
        t@.subrange(r.0 as int, r.1 as int) == aparar(t@.subrange(ini as int, fim as int)),
{
    let mut a = ini;
    while a < fim && eh_espaco_exec(t[a])
        invariant
            ini <= a <= fim <= t.len(),
            sem_espaco_inicial(t@.subrange(ini as int, fim as int)) == sem_espaco_inicial(
                t@.subrange(a as int, fim as int),
            ),
        decreases fim - a,
    {
        assert(t@.subrange(a as int, fim as int).drop_first() =~= t@.subrange(a + 1, fim as int));
        a = a + 1;
    }
    let mut b = fim;
    while b > a && eh_espaco_exec(t[b - 1])
        invariant
            ini <= a <= b <= fim <= t.len(),
            sem_espaco_final(t@.subrange(a as int, fim as int)) == sem_espaco_final(
                t@.subrange(a as int, b as int),
            ),
        decreases b - a,
    {
        assert(t@.subrange(a as int, b as int).drop_last() =~= t@.subrange(a as int, b - 1));
        b = b - 1;
    }
    (a, b)
}

/// Whether `a` and `b` hold the same characters.
pub fn iguais(a: &Vec<char>, b: &Vec<char>) -> (r: bool)
    ensures
        r == (a@ == b@),
{
    if a.len() != b.len() {
        return false;
    }
    let mut i: usize = 0;
    while i < a.len()
        invariant
            i <= a.len(),
            a.len() == b.len(),
            forall|k: int| 0 <= k < i ==> a@[k] == b@[k],
        decreases a.len() - i,
    {
        if a[i] != b[i] {
            return false;
        }
        i = i + 1;
    }
    assert(a@ =~= b@);
    true
}

/// Whether `t` begins with `p` (what `str::starts_with` answers).
pub fn comeca_com(t: &Vec<char>, p: &Vec<char>) -> (r: bool)
    ensures
        r == (p.len() <= t.len() && t@.subrange(0, p.len() as int) == p@),
{
    if p.len() > t.len() {
        return false;
    }
    ocorre_em(t, 0, p)
}


pub proof fn lema_ultima_nao_vazia_frente(x: Seq<char>, r: Seq<Seq<char>>)
    ensures
        ultima_nao_vazia(seq![x] + r) == combinar(x, ultima_nao_vazia(r)),
    decreases r.len(),
{
    if x.len() == 0 {
        assert(x =~= Seq::<char>::empty());
    }
    if r.len() == 0 {
        assert(seq![x] + r =~= seq![x]);
        assert(seq![x].drop_last() =~= Seq::<Seq<char>>::empty());
        assert(ultima_nao_vazia(r) == Seq::<char>::empty());
        assert(seq![x].last() == x);
        assert(ultima_nao_vazia(Seq::<Seq<char>>::empty()) == Seq::<char>::empty());
        assert(ultima_nao_vazia(seq![x]) == combinar(x, Seq::<char>::empty()));
    } else {
        assert((seq![x] + r).last() == r.last());
        assert((seq![x] + r).drop_last() =~= seq![x] + r.drop_last());
        lema_ultima_nao_vazia_frente(x, r.drop_last());
    }
}

/// A text whose first `'\n'` is at `k` has, as its lines, the piece before
/// it and then the lines of what follows.
pub proof fn lema_primeira_linha(s: Seq<char>, k: int)
    requires
        0 <= k < s.len(),
        s[k] == '\n',
        forall|j: int| 0 <= j < k ==> s[j] != '\n',
    ensures
        linhas(s) == seq![sem_cr(s.subrange(0, k))] + linhas(s.subrange(k + 1, s.len() as int)),
        ultima_linha(s) == combinar(
            aparar(sem_cr(s.subrange(0, k))),
            ultima_linha(s.subrange(k + 1, s.len() as int)),
        ),
{
    lema_fim_da_linha_em(s, k);
    let resto_ = linhas(s.subrange(k + 1, s.len() as int));
    let f = |l: Seq<char>| aparar(l);
    assert((seq![sem_cr(s.subrange(0, k))] + resto_).map_values(f) =~= seq![
        aparar(sem_cr(s.subrange(0, k))),
    ] + resto_.map_values(f));
    lema_ultima_nao_vazia_frente(aparar(sem_cr(s.subrange(0, k))), resto_.map_values(f));
}

/// A text with no `'\n'` is a single line (or none, when empty).
pub proof fn lema_linha_unica(s: Seq<char>)
    requires
        forall|j: int| 0 <= j < s.len() ==> s[j] != '\n',
    ensures
        ultima_linha(s) == combinar(seq![], aparar(s)),
{
    let f = |l: Seq<char>| aparar(l);
    if s.len() == 0 {
        assert(linhas(s) =~= Seq::<Seq<char>>::empty());
        assert(linhas(s).map_values(f) =~= Seq::<Seq<char>>::empty());
        assert(aparar(s) == s);
        assert(ultima_nao_vazia(Seq::<Seq<char>>::empty()) == Seq::<char>::empty());
        assert(s =~= Seq::<char>::empty());
    } else {
        lema_fim_da_linha_em(s, s.len() as int);
        assert(linhas(s) == seq![s]);
        assert(linhas(s).map_values(f) =~= seq![aparar(s)]);
        assert(seq![aparar(s)].drop_last() =~= Seq::<Seq<char>>::empty());
        if aparar(s).len() == 0 {
            assert(aparar(s) =~= Seq::<char>::empty());
        }
        assert(seq![aparar(s)].last() == aparar(s));
        assert(ultima_nao_vazia(Seq::<Seq<char>>::empty()) == Seq::<char>::empty());
    }
}

/// The bounds, in `t`, of its last line that is not blank, trimmed; an empty
/// piece when there is none.
pub fn ultima_linha_exec(t: &Vec<char>) -> (r: (usize, usize))
    ensures
        r.0 <= r.1 <= t.len(),
        t@.subrange(r.0 as int, r.1 as int) == ultima_linha(t@),
{
    let n = t.len();
    let mut melhor: (usize, usize) = (0, 0);
    let mut ini: usize = 0;
    let mut i: usize = 0;
    assert(t@.subrange(0, n as int) =~= t@);
    while i < n
        invariant
            ini <= i <= n,
            n == t.len(),
            melhor.0 <= melhor.1 <= n,
            forall|j: int| ini <= j < i ==> t@[j] != '\n',
            ultima_linha(t@) == combinar(
                t@.subrange(melhor.0 as int, melhor.1 as int),
                ultima_linha(t@.subrange(ini as int, n as int)),
            ),
        decreases n - i,
    {
        if t[i] == '\n' {
            let mut fim = i;
            if fim > ini && t[fim - 1] == '\r' {
                fim = fim - 1;
            }
            let (a, b) = aparar_trecho(t, ini, fim);
            proof {
                let s = t@.subrange(ini as int, n as int);
                let k = i - ini;
                lema_primeira_linha(s, k);
                assert(s.subrange(0, k) =~= t@.subrange(ini as int, i as int));
                assert(s.subrange(k + 1, s.len() as int) =~= t@.subrange(i + 1, n as int));
                assert(sem_cr(t@.subrange(ini as int, i as int)) =~= t@.subrange(ini as int, fim as int));
            }
            if a < b {
                melhor = (a, b);
            }
            ini = i + 1;
        }
        i = i + 1;
    }
    let (a, b) = aparar_trecho(t, ini, n);
    proof {
        lema_linha_unica(t@.subrange(ini as int, n as int));
    }
    if a < b {
        melhor = (a, b);
    }
    melhor
}


/// Every text holds itself.
pub proof fn lema_contem_a_si(p: Seq<char>)
    ensures
        contem(p, p),
{
    assert(p.subrange(0, 0int + p.len()) =~= p);
}

/// What holds `p` in a piece holds it in the whole.
pub proof fn lema_contem_trecho(t: Seq<char>, a: int, b: int, p: Seq<char>)
    requires
        0 <= a <= b <= t.len(),
        contem(t.subrange(a, b), p),
    ensures
        contem(t, p),
{
    let u = t.subrange(a, b);
    let i = choose|i: int| 0 <= i <= u.len() - p.len() && #[trigger] u.subrange(i, i + p.len()) == p;
    assert(t.subrange(a + i, a + i + p.len()) =~= u.subrange(i, i + p.len()));
}

/// Joining text on either side keeps what was held.
pub proof fn lema_contem_junta(a: Seq<char>, b: Seq<char>, p: Seq<char>)
    ensures
        contem(a, p) ==> contem(a + b, p),
        contem(b, p) ==> contem(a + b, p),
{
    let t = a + b;
    if contem(a, p) {
        assert(t.subrange(0, a.len() as int) =~= a);
        lema_contem_trecho(t, 0, a.len() as int, p);
    }
    if contem(b, p) {
        assert(t.subrange(a.len() as int, t.len() as int) =~= b);
        lema_contem_trecho(t, a.len() as int, t.len() as int, p);
    }
}

/// Text that does not hold the last character of `p` after a text that does
/// not hold `p` still does not hold it.
pub proof fn lema_nao_contem_depois(a: Seq<char>, b: Seq<char>, p: Seq<char>)
    requires
        p.len() > 0,
        !contem(a, p),
        forall|i: int| 0 <= i < b.len() ==> b[i] != p.last(),
    ensures
        !contem(a + b, p),
{
    let t = a + b;
    if contem(t, p) {
        let i = choose|i: int| 0 <= i <= t.len() - p.len() && #[trigger] t.subrange(i, i + p.len()) == p;
        if i + p.len() <= a.len() {
            assert(a.subrange(i, i + p.len()) =~= t.subrange(i, i + p.len()));
        } else {
            assert(t.subrange(i, i + p.len())[p.len() - 1] == t[i + p.len() - 1]);
            assert(b[i + p.len() - 1 - a.len()] == t[i + p.len() - 1]);
        }
    }
}

/// Text that does not hold the first character of `p`, before a text that
/// does not hold `p`, still does not hold it.
pub proof fn lema_nao_contem_antes(a: Seq<char>, b: Seq<char>, p: Seq<char>)
    requires
        p.len() > 0,
        !contem(b, p),
        forall|i: int| 0 <= i < a.len() ==> a[i] != p[0],
    ensures
        !contem(a + b, p),
{
    let t = a + b;
    if contem(t, p) {
        let i = choose|i: int| 0 <= i <= t.len() - p.len() && #[trigger] t.subrange(i, i + p.len()) == p;
        if i >= a.len() {
            assert(b.subrange(i - a.len(), i - a.len() + p.len()) =~= t.subrange(i, i + p.len()));
        } else {
            assert(t.subrange(i, i + p.len())[0] == t[i]);
            assert(a[i] == t[i]);
        }
    }
}

/// Trimming the start drops a run of white space.
pub proof fn lema_sem_espaco_inicial(t: Seq<char>)
    ensures
        exists|k: int|
            0 <= k <= t.len() && sem_espaco_inicial(t) == t.subrange(k, t.len() as int) && (forall|
                j: int,
            | 0 <= j < k ==> eh_espaco(#[trigger] t[j])) && (k < t.len() ==> !eh_espaco(t[k])),
    decreases t.len(),
{
    if t.len() > 0 && eh_espaco(t[0]) {
        lema_sem_espaco_inicial(t.drop_first());
        let u = t.drop_first();
        let k = choose|k: int|
            0 <= k <= u.len() && sem_espaco_inicial(u) == u.subrange(k, u.len() as int) && (forall|
                j: int,
            | 0 <= j < k ==> eh_espaco(#[trigger] u[j])) && (k < u.len() ==> !eh_espaco(u[k]));
        assert(u.subrange(k, u.len() as int) =~= t.subrange(k + 1, t.len() as int));
        assert forall|j: int| 0 <= j < k + 1 implies eh_espaco(#[trigger] t[j]) by {
            if j > 0 {
                assert(t[j] == u[j - 1]);
            }
        }
        assert(k + 1 < t.len() ==> t[k + 1] == u[k]);
    } else {
        assert(t.subrange(0, t.len() as int) =~= t);
    }
}

/// Trimming the end drops a run of white space.
pub proof fn lema_sem_espaco_final(t: Seq<char>)
    ensures
        exists|k: int|
            0 <= k <= t.len() && sem_espaco_final(t) == t.subrange(0, k) && (forall|j: int|
                k <= j < t.len() ==> eh_espaco(#[trigger] t[j])) && (k > 0 ==> !eh_espaco(t[k - 1])),
    decreases t.len(),
{
    if t.len() > 0 && eh_espaco(t.last()) {
        lema_sem_espaco_final(t.drop_last());
        let u = t.drop_last();
        let k = choose|k: int|
            0 <= k <= u.len() && sem_espaco_final(u) == u.subrange(0, k) && (forall|j: int|
                k <= j < u.len() ==> eh_espaco(#[trigger] u[j])) && (k > 0 ==> !eh_espaco(u[k - 1]));
        assert(u.subrange(0, k) =~= t.subrange(0, k));
        assert forall|j: int| k <= j < t.len() implies eh_espaco(#[trigger] t[j]) by {
            if j < t.len() - 1 {
                assert(t[j] == u[j]);
            }
        }
        assert(k > 0 ==> t[k - 1] == u[k - 1]);
    } else {
        assert(t.subrange(0, t.len() as int) =~= t);
    }
}

/// Trimming keeps a piece of the text.
pub proof fn lema_aparar_trecho(t: Seq<char>)
    ensures
        exists|a: int, b: int| 0 <= a <= b <= t.len() && aparar(t) == t.subrange(a, b),
{
    lema_sem_espaco_inicial(t);
    let k = choose|k: int|
        0 <= k <= t.len() && sem_espaco_inicial(t) == t.subrange(k, t.len() as int) && (forall|
            j: int,
        | 0 <= j < k ==> eh_espaco(#[trigger] t[j])) && (k < t.len() ==> !eh_espaco(t[k]));
    let u = t.subrange(k, t.len() as int);
    lema_sem_espaco_final(u);
    let m = choose|m: int|
        0 <= m <= u.len() && sem_espaco_final(u) == u.subrange(0, m) && (forall|j: int|
            m <= j < u.len() ==> eh_espaco(#[trigger] u[j])) && (m > 0 ==> !eh_espaco(u[m - 1]));
    assert(u.subrange(0, m) =~= t.subrange(k, k + m));
}

/// A text with a character that is not white space keeps it when trimmed;
/// trimming starts at the first such character.
pub proof fn lema_aparar_nao_vazio(t: Seq<char>, j: int)
    requires
        0 <= j < t.len(),
        !eh_espaco(t[j]),
    ensures
        aparar(t).len() > 0,
        (forall|i: int| 0 <= i < j ==> eh_espaco(#[trigger] t[i])) ==> aparar(t)[0] == t[j],
{
    lema_sem_espaco_inicial(t);
    let k = choose|k: int|
        0 <= k <= t.len() && sem_espaco_inicial(t) == t.subrange(k, t.len() as int) && (forall|
            i: int,
        | 0 <= i < k ==> eh_espaco(#[trigger] t[i])) && (k < t.len() ==> !eh_espaco(t[k]));
    assert(k <= j) by {
        if k > j {
            assert(eh_espaco(t[j]));
        }
    }
    let u = t.subrange(k, t.len() as int);
    lema_sem_espaco_final(u);
    let m = choose|m: int|
        0 <= m <= u.len() && sem_espaco_final(u) == u.subrange(0, m) && (forall|i: int|
            m <= i < u.len() ==> eh_espaco(#[trigger] u[i])) && (m > 0 ==> !eh_espaco(u[m - 1]));
    assert(m > 0) by {
        if m == 0 {
            assert(eh_espaco(u[0]));
        }
    }
    if forall|i: int| 0 <= i < j ==> eh_espaco(#[trigger] t[i]) {
        if k < j {
            assert(eh_espaco(t[k]));
        }
    }
}

/// Trimming text that ends in something other than white space, after text
/// whose trimmed start is `r`, only trims the start.
pub proof fn lema_aparar_junta(r: Seq<char>, y: Seq<char>)
    requires
        y.len() > 0,
        !eh_espaco(y[0]),
        !eh_espaco(y.last()),
    ensures
        aparar(r + y) == sem_espaco_inicial(r) + y,
    decreases r.len(),
{
    if r.len() > 0 && eh_espaco(r[0]) {
        assert((r + y).drop_first() =~= r.drop_first() + y);
        lema_aparar_junta(r.drop_first(), y);
    } else if r.len() > 0 {
        assert((r + y)[0] == r[0]);
        let u = r + y;
        assert(u.last() == y.last());
        assert(sem_espaco_final(u) == u);
    } else {
        assert(r + y =~= y);
        assert(sem_espaco_final(y) == y);
    }
}

/// The lines of a text that ends with a line of its own: the last one is
/// what followed the text's last `'\n'` joined with that line.
pub proof fn lema_ultima_de_linha_final(x: Seq<char>, y: Seq<char>)
    requires
        forall|j: int| 0 <= j < y.len() ==> y[j] != '\n',
    ensures
        linhas(x + y + seq!['\n']).len() > 0,
        linhas(x + y + seq!['\n']).last() == sem_cr(resto(x) + y),
    decreases x.len(),
{
    let t = x + y + seq!['\n'];
    lema_fim_da_linha(x);
    let k0 = fim_da_linha(x);
    if k0 >= x.len() {
        assert forall|j: int| 0 <= j < x.len() + y.len() implies t[j] != '\n' by {
            if j >= x.len() {
                assert(t[j] == y[j - x.len()]);
            } else {
                assert(t[j] == x[j]);
            }
        }
        let n = x.len() + y.len();
        lema_fim_da_linha_em(t, n as int);
        assert(t.subrange(0, n as int) =~= x + y);
        assert(t.subrange(n + 1int, t.len() as int) =~= Seq::<char>::empty());
        assert(linhas(Seq::<char>::empty()) =~= Seq::<Seq<char>>::empty());
        assert(resto(x) == x);
    } else {
        assert forall|j: int| 0 <= j < k0 implies t[j] != '\n' by {
            assert(t[j] == x[j]);
        }
        assert(t[k0 as int] == x[k0 as int]);
        lema_fim_da_linha_em(t, k0 as int);
        let x2 = x.subrange(k0 + 1int, x.len() as int);
        assert(t.subrange(k0 + 1int, t.len() as int) =~= x2 + y + seq!['\n']);
        lema_ultima_de_linha_final(x2, y);
        assert(resto(x) == resto(x2));
    }
}

/// The last line of a text that ends with a line of its own, when that line
/// is not blank once trimmed.
pub proof fn lema_ultima_linha_final(x: Seq<char>, y: Seq<char>)
    requires
        forall|j: int| 0 <= j < y.len() ==> y[j] != '\n',
        aparar(sem_cr(resto(x) + y)).len() > 0,
    ensures
        ultima_linha(x + y + seq!['\n']) == aparar(sem_cr(resto(x) + y)),
{
    lema_ultima_de_linha_final(x, y);
    let l = linhas(x + y + seq!['\n']);
    let m = l.map_values(|s: Seq<char>| aparar(s));
    assert(m.last() == aparar(l.last()));
}


/// Splitting at a line boundary: the lines of the whole are the lines of the
/// first part, then those of the second.
pub proof fn lema_linhas_junta(b: Seq<char>, w: Seq<char>)
    requires
        b.len() == 0 || b.last() == '\n',
    ensures
        linhas(b + w) == linhas(b) + linhas(w),
    decreases b.len(),
{
    if b.len() == 0 {
        assert(b + w =~= w);
        assert(linhas(b) =~= Seq::<Seq<char>>::empty());
        assert(linhas(b) + linhas(w) =~= linhas(w));
    } else {
        lema_fim_da_linha(b);
        let k = fim_da_linha(b) as int;
        if k >= b.len() {
            assert(b[b.len() - 1] == '\n');
        }
        let t = b + w;
        assert forall|j: int| 0 <= j < k implies t[j] != '\n' by {
            assert(t[j] == b[j]);
        }
        assert(t[k] == b[k]);
        lema_primeira_linha(t, k);
        lema_primeira_linha(b, k);
        let b2 = b.subrange(k + 1, b.len() as int);
        assert(t.subrange(0, k) =~= b.subrange(0, k));
        assert(t.subrange(k + 1, t.len() as int) =~= b2 + w);
        if b2.len() > 0 {
            assert(b2.last() == b.last());
        }
        lema_linhas_junta(b2, w);
        assert(seq![sem_cr(b.subrange(0, k))] + (linhas(b2) + linhas(w)) =~= (seq![
            sem_cr(b.subrange(0, k)),
        ] + linhas(b2)) + linhas(w));
    }
}

/// The last non-empty element of two sequences joined.
pub proof fn lema_ultima_nao_vazia_junta(s1: Seq<Seq<char>>, s2: Seq<Seq<char>>)
    ensures
        ultima_nao_vazia(s1 + s2) == combinar(ultima_nao_vazia(s1), ultima_nao_vazia(s2)),
    decreases s2.len(),
{
    if s2.len() == 0 {
        assert(s1 + s2 =~= s1);
        assert(ultima_nao_vazia(s2) == Seq::<char>::empty());
    } else {
        assert((s1 + s2).last() == s2.last());
        assert((s1 + s2).drop_last() =~= s1 + s2.drop_last());
        lema_ultima_nao_vazia_junta(s1, s2.drop_last());
    }
}

/// The last line of two texts joined at a line boundary.
pub proof fn lema_ultima_linha_junta(b: Seq<char>, w: Seq<char>)
    requires
        b.len() == 0 || b.last() == '\n',
    ensures
        ultima_linha(b + w) == combinar(ultima_linha(b), ultima_linha(w)),
{
    lema_linhas_junta(b, w);
    let f = |l: Seq<char>| aparar(l);
    assert((linhas(b) + linhas(w)).map_values(f) =~= linhas(b).map_values(f) + linhas(w).map_values(
        f,
    ));
    lema_ultima_nao_vazia_junta(linhas(b).map_values(f), linhas(w).map_values(f));
}

/// A text that starts with something other than white space has a line that
/// is not blank.
pub proof fn lema_ultima_linha_nao_vazia(t: Seq<char>)
    requires
        t.len() > 0,
        !eh_espaco(t[0]),
    ensures
        ultima_linha(t).len() > 0,
{
    lema_fim_da_linha(t);
    let k = fim_da_linha(t) as int;
    if k < t.len() {
        lema_primeira_linha(t, k);
        let l = t.subrange(0, k);
        assert(k > 0) by {
            if k == 0 {
                assert(t[0] == '\n');
            }
        }
        let u = sem_cr(l);
        assert(u[0] == t[0]);
        lema_aparar_nao_vazio(u, 0);
    } else {
        lema_linha_unica(t);
        lema_aparar_nao_vazio(t, 0);
    }
}

/// The last line of a text that does not hold `p` does not hold it.
pub proof fn lema_ultima_linha_sem(t: Seq<char>, p: Seq<char>)
    requires
        p.len() > 0,
        !contem(t, p),
    ensures
        !contem(ultima_linha(t), p),
    decreases t.len(),
{
    lema_fim_da_linha(t);
    let k = fim_da_linha(t) as int;
    if k < t.len() {
        lema_primeira_linha(t, k);
        let l = t.subrange(0, k);
        let u = sem_cr(l);
        let m = if l.len() > 0 && l.last() == '\r' {
            k - 1
        } else {
            k
        };
        assert(u =~= t.subrange(0, m));
        lema_aparar_trecho(u);
        let (a, b) = choose|a: int, b: int| 0 <= a <= b <= u.len() && aparar(u) == u.subrange(a, b);
        assert(u.subrange(a, b) =~= t.subrange(a, b));
        if contem(aparar(u), p) {
            lema_contem_trecho(t, a, b, p);
        }
        let r = t.subrange(k + 1, t.len() as int);
        if contem(r, p) {
            lema_contem_trecho(t, k + 1, t.len() as int, p);
        }
        lema_ultima_linha_sem(r, p);
    } else {
        lema_linha_unica(t);
        lema_aparar_trecho(t);
        let (a, b) = choose|a: int, b: int| 0 <= a <= b <= t.len() && aparar(t) == t.subrange(a, b);
        if contem(aparar(t), p) {
            lema_contem_trecho(t, a, b, p);
        }
        let e = Seq::<char>::empty();
        if contem(e, p) {
            let i = choose|i: int| 0 <= i <= e.len() - p.len() && #[trigger] e.subrange(i, i + p.len()) == p;
        }
    }
}

/// Trimming leaves nothing exactly when every character is white space.
pub proof fn lema_aparar_vazio(t: Seq<char>)
    ensures
        aparar(t).len() == 0 <==> forall|i: int| 0 <= i < t.len() ==> eh_espaco(#[trigger] t[i]),
{
    if exists|i: int| 0 <= i < t.len() && !eh_espaco(#[trigger] t[i]) {
        let j = choose|i: int| 0 <= i < t.len() && !eh_espaco(#[trigger] t[i]);
        lema_aparar_nao_vazio(t, j);
    } else {
        lema_sem_espaco_inicial(t);
        let k = choose|k: int|
            0 <= k <= t.len() && sem_espaco_inicial(t) == t.subrange(k, t.len() as int) && (forall|
                j: int,
            | 0 <= j < k ==> eh_espaco(#[trigger] t[j])) && (k < t.len() ==> !eh_espaco(t[k]));
        assert(sem_espaco_inicial(t).len() == 0);
        assert(sem_espaco_inicial(t) =~= Seq::<char>::empty());
        assert(sem_espaco_final(Seq::<char>::empty()) == Seq::<char>::empty());
    }
}

} // verus!
