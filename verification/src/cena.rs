//! The scene's own state: the game given at start for testing is opened
//! only once, and not each time the application comes back to the front.
use vstd::prelude::*;

verus! {

/// What the scene remembers between its activations.
pub struct EstadoDaCena {
    /// The test game was already looked for.
    pub ja_abriu_de_teste: bool,
}

/// One activation: whether the test game is looked for now, and what is
/// remembered afterwards.
pub open spec fn ativacao(ja_abriu: bool) -> (bool, bool) {
    (!ja_abriu, true)
}

/// How many of `vezes` activations in a row look for the test game.
pub open spec fn aberturas(ja_abriu: bool, vezes: nat) -> nat
    decreases vezes,
{
    if vezes == 0 {
        0
    } else {
        let (abre, depois) = ativacao(ja_abriu);
        (if abre {
            1nat
        } else {
            0nat
        }) + aberturas(depois, (vezes - 1) as nat)
    }
}

impl EstadoDaCena {
    /// A scene that has not looked for the test game yet.
    pub fn nova() -> (r: EstadoDaCena)
        ensures
            !r.ja_abriu_de_teste,
    {
        EstadoDaCena { ja_abriu_de_teste: false }
    }

    /// The scene became active: says whether to look for the test game now.
    pub fn ficou_ativa(&mut self) -> (abrir_teste: bool)
        ensures
            (abrir_teste, final(self).ja_abriu_de_teste) == ativacao(old(self).ja_abriu_de_teste),
    {
        let abrir_teste = !self.ja_abriu_de_teste;
        self.ja_abriu_de_teste = true;
        abrir_teste
    }
}

/// However many times the scene becomes active, the test game is looked for
/// once: at the first activation, and never after.
pub proof fn lei_teste_abre_uma_vez(vezes: nat)
    ensures
        aberturas(false, vezes) == (if vezes > 0 {
            1nat
        } else {
            0nat
        }),
        aberturas(true, vezes) == 0,
    decreases vezes,
{
    if vezes > 0 {
        lei_teste_abre_uma_vez((vezes - 1) as nat);
    }
}

} // verus!
