//! The player's controller: what it holds between being prepared for a
//! movie and loading its view, and how the player is configured.
use vstd::prelude::*;

verus! {

/// What the controller holds: the movie's content, the user's options and
/// the storage, kept for when the view loads; and the resource that must
/// stay open while the movie is in use.
pub struct Preparo<C, O, S, R> {
    conteudo: Option<C>,
    opcoes: Option<O>,
    armazenamento: Option<S>,
    recurso: Option<R>,
}

impl<C, O, S, R> Preparo<C, O, S, R> {
    pub closed spec fn conteudo(&self) -> Option<C> {
        self.conteudo
    }

    pub closed spec fn opcoes(&self) -> Option<O> {
        self.opcoes
    }

    pub closed spec fn armazenamento(&self) -> Option<S> {
        self.armazenamento
    }

    pub closed spec fn recurso(&self) -> Option<R> {
        self.recurso
    }

    /// A controller with nothing yet.
    pub fn vazio() -> (r: Self)
        ensures
            r.conteudo() is None,
            r.opcoes() is None,
            r.armazenamento() is None,
            r.recurso() is None,
    {
        Preparo { conteudo: None, opcoes: None, armazenamento: None, recurso: None }
    }

    /// A controller for content and options given directly, with no storage
    /// and no resource to keep open.
    pub fn com(conteudo: C, opcoes: O) -> (r: Self)
        ensures
            r.conteudo() == Some(conteudo),
            r.opcoes() == Some(opcoes),
            r.armazenamento() is None,
            r.recurso() is None,
    {
        Preparo {
            conteudo: Some(conteudo),
            opcoes: Some(opcoes),
            armazenamento: None,
            recurso: None,
        }
    }

    /// Prepares the controller for playing a movie: its content, its options,
    /// its storage, and the resource to keep open (only for a file).
    pub fn setup_movie(&mut self, conteudo: C, opcoes: O, armazenamento: S, recurso: Option<R>)
        ensures
            final(self).conteudo() == Some(conteudo),
            final(self).opcoes() == Some(opcoes),
            final(self).armazenamento() == Some(armazenamento),
            final(self).recurso() == recurso,
    {
        self.conteudo = Some(conteudo);
        self.opcoes = Some(opcoes);
        self.armazenamento = Some(armazenamento);
        self.recurso = recurso;
    }

    /// Whether the view can load: there is content and there are options.
    pub fn pronto_para_carregar(&self) -> (r: bool)
        ensures
            r == (self.conteudo() is Some && self.opcoes() is Some),
    {
        self.conteudo.is_some() && self.opcoes.is_some()
    }

    /// Hands over, for the view to load, the content, the options and the
    /// storage, which the controller then no longer holds.
    pub fn tomar_para_carregar(&mut self) -> (r: (C, O, Option<S>))
        requires
            old(self).conteudo() is Some,
            old(self).opcoes() is Some,
        ensures
            Some(r.0) == old(self).conteudo(),
            Some(r.1) == old(self).opcoes(),
            r.2 == old(self).armazenamento(),
            final(self).conteudo() is None,
            final(self).opcoes() is None,
            final(self).armazenamento() is None,
            final(self).recurso() == old(self).recurso(),
    {
        let c = self.conteudo.take().unwrap();
        let o = self.opcoes.take().unwrap();
        let s = self.armazenamento.take();
        (c, o, s)
    }
}

/// How the movie fits the screen.
#[derive(Clone, Copy, Debug, PartialEq, Eq, Structural)]
pub enum Letterbox {
    Off,
    Fullscreen,
    On,
}

/// The quality the stage is drawn at.
#[derive(Clone, Copy, Debug, PartialEq, Eq, Structural)]
pub enum Qualidade {
    Low,
    Medium,
    High,
    Best,
    High8x8,
    High8x8Linear,
    High16x16,
    High16x16Linear,
}

/// When the movie starts, relative to its loading.
#[derive(Clone, Copy, Debug, PartialEq, Eq, Structural)]
pub enum Carregamento {
    Streaming,
    Delayed,
    Blocking,
}

/// A duration, in seconds and nanoseconds.
#[derive(Clone, Copy, Debug, PartialEq, Eq, Structural)]
pub struct Duracao {
    pub segundos: u64,
    pub nanos: u32,
}

/// The longest duration there is (`Duration::MAX`): no limit.
pub open spec fn duracao_maxima() -> Duracao {
    Duracao { segundos: 0xffff_ffff_ffff_ffff, nanos: 999_999_999 }
}

/// The user's options that the player's configuration reads; `U` is an
/// address.
pub struct OpcoesDoJogador<U> {
    pub base: Option<U>,
    pub upgrade_to_https: Option<bool>,
    pub letterbox: Option<Letterbox>,
    pub max_execution_duration: Option<Duracao>,
    pub quality: Option<Qualidade>,
    pub force_scale: Option<bool>,
    pub load_behavior: Option<Carregamento>,
    pub spoof_url: Option<U>,
}

/// The configuration the player is built with.
pub struct ConfiguracaoDoJogador<U> {
    /// The address that relative addresses are resolved against.
    pub base: U,
    pub upgrade_to_https: bool,
    pub letterbox: Letterbox,
    pub max_execution_duration: Duracao,
    pub quality: Qualidade,
    /// Whether the scale mode is imposed on the movie.
    pub force_scale: bool,
    pub load_behavior: Carregamento,
    /// The address the movie is told it is at, and its page's.
    pub spoof_url: Option<U>,
}

/// The configuration for `opcoes` and a movie at `url_do_filme`: what the
/// user chose, and otherwise the movie's own address as base, no upgrade to
/// https, letterbox on, no time limit, high quality, the scale mode imposed,
/// and streaming load.
///
/// The scale is imposed by default because the game asks the stage not to
/// scale as it starts; left to it, it shows at its own size, cut on the
/// right with a black band below.
pub fn configurar_jogador<U>(opcoes: OpcoesDoJogador<U>, url_do_filme: U) -> (r:
    ConfiguracaoDoJogador<U>)
    ensures
        r.base == (match opcoes.base {
            Some(b) => b,
            None => url_do_filme,
        }),
        r.upgrade_to_https == (match opcoes.upgrade_to_https {
            Some(b) => b,
            None => false,
        }),
        r.letterbox == (match opcoes.letterbox {
            Some(l) => l,
            None => Letterbox::On,
        }),
        r.max_execution_duration == (match opcoes.max_execution_duration {
            Some(d) => d,
            None => duracao_maxima(),
        }),
        r.quality == (match opcoes.quality {
            Some(q) => q,
            None => Qualidade::High,
        }),
        r.force_scale == (match opcoes.force_scale {
            Some(b) => b,
            None => true,
        }),
        r.load_behavior == (match opcoes.load_behavior {
            Some(c) => c,
            None => Carregamento::Streaming,
        }),
        r.spoof_url == opcoes.spoof_url,
{
    let base = match opcoes.base {
        Some(b) => b,
        None => url_do_filme,
    };
    ConfiguracaoDoJogador {
        base,
        upgrade_to_https: match opcoes.upgrade_to_https {
            Some(b) => b,
            None => false,
        },
        letterbox: match opcoes.letterbox {
            Some(l) => l,
            None => Letterbox::On,
        },
        max_execution_duration: match opcoes.max_execution_duration {
            Some(d) => d,
            None => Duracao { segundos: 0xffff_ffff_ffff_ffff, nanos: 999_999_999 },
        },
        quality: match opcoes.quality {
            Some(q) => q,
            None => Qualidade::High,
        },
        force_scale: match opcoes.force_scale {
            Some(b) => b,
            None => true,
        },
        load_behavior: match opcoes.load_behavior {
            Some(c) => c,
            None => Carregamento::Streaming,
        },
        spoof_url: opcoes.spoof_url,
    }
}

} // verus!
