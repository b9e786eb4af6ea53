use deathnote_ios::cena::EstadoDaCena;
use deathnote_ios::jogador::{
    configurar_jogador, Carregamento, Duracao, Letterbox, OpcoesDoJogador, Preparo, Qualidade,
};

fn opcoes_vazias() -> OpcoesDoJogador<String> {
    OpcoesDoJogador {
        base: None,
        upgrade_to_https: None,
        letterbox: None,
        max_execution_duration: None,
        quality: None,
        force_scale: None,
        load_behavior: None,
        spoof_url: None,
    }
}

#[test]
fn configuracao_padrao() {
    let c = configurar_jogador(opcoes_vazias(), "http://filme/".to_string());
    assert_eq!(c.base, "http://filme/");
    assert!(!c.upgrade_to_https);
    assert_eq!(c.letterbox, Letterbox::On);
    assert_eq!(c.max_execution_duration, Duracao { segundos: u64::MAX, nanos: 999_999_999 });
    let maximo = std::time::Duration::MAX;
    assert_eq!(c.max_execution_duration.segundos, maximo.as_secs());
    assert_eq!(c.max_execution_duration.nanos, maximo.subsec_nanos());
    assert_eq!(c.quality, Qualidade::High);
    assert!(c.force_scale);
    assert_eq!(c.load_behavior, Carregamento::Streaming);
    assert_eq!(c.spoof_url, None);
}

#[test]
fn configuracao_escolhida_pelo_usuario() {
    let o = OpcoesDoJogador {
        base: Some("http://base/".to_string()),
        upgrade_to_https: Some(true),
        letterbox: Some(Letterbox::Off),
        max_execution_duration: Some(Duracao { segundos: 15, nanos: 0 }),
        quality: Some(Qualidade::Low),
        force_scale: Some(false),
        load_behavior: Some(Carregamento::Blocking),
        spoof_url: Some("http://finge/".to_string()),
    };
    let c = configurar_jogador(o, "http://filme/".to_string());
    assert_eq!(c.base, "http://base/");
    assert!(c.upgrade_to_https);
    assert_eq!(c.letterbox, Letterbox::Off);
    assert_eq!(c.max_execution_duration, Duracao { segundos: 15, nanos: 0 });
    assert_eq!(c.quality, Qualidade::Low);
    assert!(!c.force_scale);
    assert_eq!(c.load_behavior, Carregamento::Blocking);
    assert_eq!(c.spoof_url.as_deref(), Some("http://finge/"));
}

#[test]
fn preparar_e_carregar() {
    let mut p: Preparo<&str, u8, &str, &str> = Preparo::vazio();
    assert!(!p.pronto_para_carregar());
    p.setup_movie("filme", 7, "armazem", Some("recurso"));
    assert!(p.pronto_para_carregar());
    let (c, o, s) = p.tomar_para_carregar();
    assert_eq!((c, o, s), ("filme", 7, Some("armazem")));
    assert!(!p.pronto_para_carregar());
}

#[test]
fn controlador_direto_sem_armazenamento() {
    let mut p: Preparo<&str, u8, &str, &str> = Preparo::com("remoto", 1);
    assert!(p.pronto_para_carregar());
    let (c, o, s) = p.tomar_para_carregar();
    assert_eq!((c, o, s), ("remoto", 1, None));
}

#[test]
fn lei_teste_abre_uma_vez() {
    let mut cena = EstadoDaCena::nova();
    assert!(cena.ficou_ativa());
    assert!(!cena.ficou_ativa());
    assert!(!cena.ficou_ativa());
    assert!(cena.ja_abriu_de_teste);
}
