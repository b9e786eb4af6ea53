use deathnote_ios::registro::{
    anotar, anotar_memoria, anterior, anterior_morreu, caminho_anterior, caminho_atual,
    decimal_exec, descrever_quebra, marcar_frente, marcar_fundo, memoria_livre_mb, abrir_sessao,
    texto_da_memoria, Anotacao, MARCA_DE_QUEBRA, TETO,
};

/// What the application does with a note: remove the file when it starts
/// over, then append.
fn aplicar(conteudo: &mut String, a: &Anotacao) {
    if a.recomecar {
        conteudo.clear();
    }
    conteudo.push_str(&a.texto);
}

#[test]
fn anotar_escreve_uma_linha_com_o_relogio() {
    let a = anotar("sessao aberta", Some(10), 1700000000);
    assert!(!a.recomecar);
    assert_eq!(a.texto, "[1700000000] sessao aberta\n");
}

#[test]
fn anotar_sem_tamanho_nao_recomeca() {
    let a = anotar("x", None, 0);
    assert!(!a.recomecar);
    assert_eq!(a.texto, "[0] x\n");
}

#[test]
fn anotar_no_teto_nao_recomeca() {
    let a = anotar("x", Some(TETO), 3);
    assert!(!a.recomecar);
    assert_eq!(a.texto, "[3] x\n");
    assert_eq!(TETO, 256 * 1024);
}

#[test]
fn anotar_passando_do_teto_recomeca() {
    let a = anotar("x", Some(TETO + 1), 5);
    assert!(a.recomecar);
    assert_eq!(a.texto, "[5] (registro recomecado por tamanho)\n[5] x\n");
}

#[test]
fn marcas_de_fundo_frente_e_abertura() {
    assert_eq!(marcar_fundo(None, 7).texto, "[7] foi pro fundo\n");
    assert_eq!(marcar_frente(Some(1), 8).texto, "[8] em primeiro plano\n");
    assert_eq!(abrir_sessao(Some(1), 9).texto, "[9] sessao aberta\n");
}

#[test]
fn decimal_dos_extremos() {
    let zero: String = decimal_exec(0).into_iter().collect();
    assert_eq!(zero, "0");
    let max: String = decimal_exec(u64::MAX).into_iter().collect();
    assert_eq!(max, u64::MAX.to_string());
    let dez: String = decimal_exec(10).into_iter().collect();
    assert_eq!(dez, "10");
}

#[test]
fn memoria_zero_e_indisponivel() {
    assert_eq!(memoria_livre_mb(0), None);
    assert_eq!(memoria_livre_mb(1), Some(0));
    assert_eq!(memoria_livre_mb(1048575), Some(0));
    assert_eq!(memoria_livre_mb(3 * 1048576 + 5), Some(3));
}

#[test]
fn texto_da_memoria_nos_dois_casos() {
    assert_eq!(texto_da_memoria(Some(512)), "memoria livre: 512 MB");
    assert_eq!(texto_da_memoria(None), "memoria livre: indisponivel (simulador)");
}

#[test]
fn anotar_memoria_mede_em_mb() {
    let a = anotar_memoria(200 * 1048576, Some(0), 2);
    assert_eq!(a.texto, "[2] memoria livre: 200 MB\n");
    let b = anotar_memoria(0, Some(0), 2);
    assert_eq!(b.texto, "[2] memoria livre: indisponivel (simulador)\n");
}

#[test]
fn nota_de_quebra_com_e_sem_detalhes() {
    assert_eq!(
        descrever_quebra(Some(("src/x.rs".to_string(), 42)), Some("boom".to_string())),
        "QUEBROU em src/x.rs:42: boom"
    );
    assert_eq!(
        descrever_quebra(None, None),
        "QUEBROU em lugar desconhecido: sem mensagem"
    );
    assert!(descrever_quebra(None, None).starts_with(MARCA_DE_QUEBRA));
}

#[test]
fn caminhos_dentro_da_pasta() {
    assert_eq!(
        caminho_atual(Some("/var/u/Documents".to_string())).as_deref(),
        Some("/var/u/Documents/registro.txt")
    );
    assert_eq!(
        caminho_anterior(Some("/var/u/Documents".to_string())).as_deref(),
        Some("/var/u/Documents/registro-anterior.txt")
    );
    assert_eq!(caminho_atual(Some("/d/".to_string())).as_deref(), Some("/d/registro.txt"));
    assert_eq!(caminho_atual(Some(String::new())).as_deref(), Some("registro.txt"));
    assert_eq!(caminho_atual(None), None);
    assert_eq!(caminho_anterior(None), None);
}

#[test]
fn caminho_igual_ao_de_pathbuf() {
    for pasta in ["/a/b", "/a/b/", "", "rel", "/"] {
        let esperado = std::path::PathBuf::from(pasta).join("registro.txt");
        assert_eq!(
            caminho_atual(Some(pasta.to_string())).unwrap(),
            esperado.to_str().unwrap()
        );
    }
}

#[test]
fn anterior_descarta_o_vazio() {
    assert_eq!(anterior(None), None);
    assert_eq!(anterior(Some(String::new())), None);
    assert_eq!(anterior(Some("  \n\t\r\n".to_string())), None);
    assert_eq!(anterior(Some("x".to_string())).as_deref(), Some("x"));
    assert_eq!(anterior(Some("\n[1] a\n".to_string())).as_deref(), Some("\n[1] a\n"));
}

#[test]
fn sem_registro_nao_ha_morte() {
    assert!(!anterior_morreu(None));
    assert!(!anterior_morreu(Some(String::new())));
    assert!(!anterior_morreu(Some(" \n \n".to_string())));
}

#[test]
fn foi_pro_fundo_por_ultimo_nao_morreu() {
    let t = "[1] sessao aberta\n[2] memoria livre: 10 MB\n[3] foi pro fundo\n";
    assert!(!anterior_morreu(Some(t.to_string())));
}

#[test]
fn linhas_em_branco_depois_do_fundo_nao_contam() {
    let t = "[1] sessao aberta\n[3] foi pro fundo\n\n   \n\t\n";
    assert!(!anterior_morreu(Some(t.to_string())));
    let crlf = "[1] sessao aberta\r\n[3] foi pro fundo\r\n";
    assert!(!anterior_morreu(Some(crlf.to_string())));
}

#[test]
fn parou_no_meio_morreu() {
    let t = "[1] sessao aberta\n[2] memoria livre: 10 MB\n";
    assert!(anterior_morreu(Some(t.to_string())));
    let voltou = "[1] foi pro fundo\n[2] em primeiro plano\n";
    assert!(anterior_morreu(Some(voltou.to_string())));
}

#[test]
fn quebra_em_qualquer_lugar_e_morte() {
    let t = "[1] QUEBROU em a.rs:1: x\n[2] foi pro fundo\n";
    assert!(anterior_morreu(Some(t.to_string())));
}

#[test]
fn lei_fundo_sobre_registro_cortado() {
    // The previous note was cut midway, with no line end: the background
    // mark still ends the record.
    let mut c = String::from("[1] sessao aberta\n[2] memoria li");
    let n = c.len() as u64;
    aplicar(&mut c, &marcar_fundo(Some(n), 3));
    assert!(!anterior_morreu(Some(c)));
}

#[test]
fn lei_sessao_inteira_simulada() {
    let mut c = String::new();
    aplicar(&mut c, &abrir_sessao(None, 1));
    let n = c.len() as u64;
    aplicar(&mut c, &anotar_memoria(300 * 1048576, Some(n), 2));
    let n = c.len() as u64;
    aplicar(&mut c, &marcar_frente(Some(n), 3));
    assert!(anterior_morreu(Some(c.clone())));
    let n = c.len() as u64;
    aplicar(&mut c, &marcar_fundo(Some(n), 4));
    assert!(!anterior_morreu(Some(c.clone())));
    let n = c.len() as u64;
    aplicar(&mut c, &marcar_frente(Some(n), 5));
    assert!(anterior_morreu(Some(c.clone())));
    assert!(c.ends_with('\n'));
}

#[test]
fn lei_quebra_anotada_e_morte() {
    let mut c = String::new();
    aplicar(&mut c, &abrir_sessao(None, 1));
    let nota = descrever_quebra(None, Some("sem memoria".to_string()));
    let n = c.len() as u64;
    aplicar(&mut c, &anotar(&nota, Some(n), 2));
    assert!(anterior_morreu(Some(c.clone())));
    let n = c.len() as u64;
    aplicar(&mut c, &marcar_fundo(Some(n), 3));
    assert!(anterior_morreu(Some(c)));
}

#[test]
fn lei_recomeco_limpa_a_quebra() {
    let mut c = String::from("[1] QUEBROU em a: b\n");
    aplicar(&mut c, &marcar_fundo(Some(TETO + 1), 2));
    assert_eq!(c, "[2] (registro recomecado por tamanho)\n[2] foi pro fundo\n");
    assert!(!anterior_morreu(Some(c)));
}

/// The judgement written directly with `str`'s own methods.
fn morreu_por_str(lido: Option<&str>) -> bool {
    let Some(texto) = lido else { return false };
    if texto.trim().is_empty() {
        return false;
    }
    if texto.contains(MARCA_DE_QUEBRA) {
        return true;
    }
    let ultima = texto
        .lines()
        .map(str::trim)
        .filter(|l| !l.is_empty())
        .next_back()
        .unwrap_or("");
    !ultima.contains("foi pro fundo")
}

#[test]
fn julgamento_igual_ao_de_str() {
    let pedacos = [
        "", "\n", "\r\n", " ", "\u{3000}", "\u{a0}", "\u{85}", "\u{2028}", "\t",
        "[1] foi pro fundo", "foi pro fundo", "foi pro fund", "[2] em primeiro plano",
        "QUEBROU", "QUEBRO", "U", "\r", "x",
    ];
    let mut casos = vec![];
    for a in pedacos {
        for b in pedacos {
            for c in pedacos {
                casos.push(format!("{a}{b}{c}"));
            }
        }
    }
    for caso in &casos {
        assert_eq!(
            anterior_morreu(Some(caso.clone())),
            morreu_por_str(Some(caso)),
            "caso {caso:?}"
        );
        let esperado = if caso.trim().is_empty() { None } else { Some(caso.as_str()) };
        assert_eq!(anterior(Some(caso.clone())).as_deref(), esperado, "caso {caso:?}");
    }
    assert_eq!(anterior_morreu(None), morreu_por_str(None));
}

#[test]
fn lei_nota_de_varias_linhas_sem_fundo_e_morte() {
    let mut c = String::from("[1] sessao aberta\n");
    let n = c.len() as u64;
    aplicar(&mut c, &anotar("primeira\nsegunda\n\n  ", Some(n), 2));
    assert!(anterior_morreu(Some(c.clone())));
    let n = c.len() as u64;
    aplicar(&mut c, &marcar_fundo(Some(n), 3));
    assert!(!anterior_morreu(Some(c.clone())));
    let n = c.len() as u64;
    aplicar(&mut c, &anotar("\nfoi pro", Some(n), 4));
    assert!(anterior_morreu(Some(c)));
}
