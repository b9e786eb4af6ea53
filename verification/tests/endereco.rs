use deathnote_ios::endereco::{
    decidir, decidir_endereco, endereco_de_teste, primeiro_da_internet, tocar_endereco,
    valor_do_parametro, Decisao, PoliticaDeNavegacao, UrlAnalisado, ENDERECO_DA_ENTRADA,
};

fn pares(v: &[(&str, &str)]) -> Vec<(String, String)> {
    v.iter().map(|(a, b)| (a.to_string(), b.to_string())).collect()
}

#[test]
fn endereco_da_internet_vira_jogo_com_parametros() {
    let u = tocar_endereco("http://servidor/Loading.swf?user=fulano&key=abc").unwrap();
    assert_eq!(u.esquema, "http");
    assert_eq!(u.serializacao, "http://servidor/Loading.swf?user=fulano&key=abc");
    assert_eq!(u.pares, pares(&[("user", "fulano"), ("key", "abc")]));
}

#[test]
fn endereco_nosso_traz_o_de_dentro() {
    let u = tocar_endereco(
        "deathnote://jogar?u=http%3A%2F%2Fs.example%2Fg.swf%3Fuser%3Da%26key%3Db",
    )
    .unwrap();
    assert_eq!(u.serializacao, "http://s.example/g.swf?user=a&key=b");
    assert_eq!(u.pares, pares(&[("user", "a"), ("key", "b")]));
}

#[test]
fn endereco_nosso_sem_u_nao_abre() {
    assert!(tocar_endereco("deathnote://jogar?x=1").is_none());
    assert!(tocar_endereco("deathnote://jogar").is_none());
}

#[test]
fn endereco_nosso_que_embrulha_um_arquivo_nao_abre() {
    assert!(tocar_endereco("deathnote://jogar?u=file%3A%2F%2F%2Ftmp%2Fa.swf").is_none());
    assert!(tocar_endereco("deathnote://jogar?u=ftp%3A%2F%2Fx%2Fy").is_none());
    assert!(tocar_endereco("deathnote://jogar?u=deathnote%3A%2F%2Fj%3Fu%3Dhttp%253A%252F%252Fa%252F").is_none());
    let textos = vec![Some("deathnote://jogar?u=file%3A%2F%2F%2Ftmp%2Fa.swf".to_string())];
    assert!(primeiro_da_internet(&textos).is_none());
}

#[test]
fn lei_endereco_embrulhado_abre_o_mesmo_que_o_de_dentro() {
    let dentro = "https://s.example/g.swf?user=a&key=b%20c";
    let embrulhado = format!(
        "deathnote://jogar?u={}",
        "https%3A%2F%2Fs.example%2Fg.swf%3Fuser%3Da%26key%3Db%2520c"
    );
    let a = tocar_endereco(dentro).unwrap();
    let b = tocar_endereco(&embrulhado).unwrap();
    assert_eq!(a.serializacao, b.serializacao);
    assert_eq!(a.esquema, b.esquema);
    assert_eq!(a.pares, b.pares);
    assert_eq!(a.pares, pares(&[("user", "a"), ("key", "b c")]));
}

#[test]
fn endereco_nosso_com_u_invalido_nao_abre() {
    assert!(tocar_endereco("deathnote://jogar?u=nada").is_none());
}

#[test]
fn outros_esquemas_e_lixo_nao_abrem() {
    assert!(tocar_endereco("file:///tmp/jogo.swf").is_none());
    assert!(tocar_endereco("ftp://x/y").is_none());
    assert!(tocar_endereco("isto nao e endereco").is_none());
    assert!(tocar_endereco("").is_none());
}

#[test]
fn esquema_em_maiusculas_e_aceito() {
    let u = tocar_endereco("HTTPS://X.example/a.swf").unwrap();
    assert_eq!(u.esquema, "https");
    assert!(u.pares.is_empty());
}

#[test]
fn o_primeiro_u_vale() {
    let ps = pares(&[("a", "1"), ("u", "primeiro"), ("u", "segundo")]);
    assert_eq!(valor_do_parametro(&ps, "u").as_deref(), Some("primeiro"));
    assert_eq!(valor_do_parametro(&ps, "z"), None);
}

#[test]
fn decisao_por_esquema() {
    let nosso = UrlAnalisado {
        serializacao: "deathnote://j?u=x".to_string(),
        esquema: "deathnote".to_string(),
        pares: pares(&[("u", "http://a/")]),
    };
    match decidir_endereco(nosso) {
        Decisao::AbrirDentro(d) => assert_eq!(d, "http://a/"),
        _ => panic!("esperava abrir o de dentro"),
    }
    let web = UrlAnalisado {
        serializacao: "https://a/".to_string(),
        esquema: "https".to_string(),
        pares: vec![],
    };
    match decidir_endereco(web) {
        Decisao::Tocar(u) => assert_eq!(u.serializacao, "https://a/"),
        _ => panic!("esperava tocar"),
    }
    let outro = UrlAnalisado {
        serializacao: "file:///a".to_string(),
        esquema: "file".to_string(),
        pares: vec![],
    };
    assert!(matches!(decidir_endereco(outro), Decisao::Recusar));
    let nosso_sem_u = UrlAnalisado {
        serializacao: "deathnote://j".to_string(),
        esquema: "deathnote".to_string(),
        pares: vec![],
    };
    assert!(matches!(decidir_endereco(nosso_sem_u), Decisao::Recusar));
}

#[test]
fn o_primeiro_da_internet_entre_varios() {
    let textos = vec![
        None,
        Some("file:///a.swf".to_string()),
        Some("https://b.example/c.swf?x=1".to_string()),
        Some("http://d.example/".to_string()),
    ];
    let (i, u) = primeiro_da_internet(&textos).unwrap();
    assert_eq!(i, 2);
    assert_eq!(u.pares, pares(&[("x", "1")]));
    let nenhum = vec![None, Some("file:///a.swf".to_string())];
    assert!(primeiro_da_internet(&nenhum).is_none());
    assert!(primeiro_da_internet(&vec![]).is_none());
}

#[test]
fn pagina_de_entrada_abre_o_jogo_pelo_endereco_nosso() {
    assert_eq!(decidir("deathnote://jogar?u=x"), PoliticaDeNavegacao::Cancelar);
    assert_eq!(decidir("deathnote:"), PoliticaDeNavegacao::Cancelar);
    assert_eq!(decidir(ENDERECO_DA_ENTRADA), PoliticaDeNavegacao::Permitir);
    assert_eq!(decidir(""), PoliticaDeNavegacao::Permitir);
    assert_eq!(decidir("deathnote"), PoliticaDeNavegacao::Permitir);
    assert_eq!(decidir("Deathnote://x"), PoliticaDeNavegacao::Permitir);
}

fn args(v: &[&str]) -> Vec<String> {
    v.iter().map(|s| s.to_string()).collect()
}

#[test]
fn endereco_de_teste_depois_de_jogo() {
    assert_eq!(
        endereco_de_teste(&args(&["app", "--jogo", "http://x/"])).as_deref(),
        Some("http://x/")
    );
    assert_eq!(endereco_de_teste(&args(&["app", "--jogo"])), None);
    assert_eq!(endereco_de_teste(&args(&[])), None);
    assert_eq!(endereco_de_teste(&args(&["app", "-v"])), None);
    assert_eq!(
        endereco_de_teste(&args(&["--jogo", "--jogo", "x"])).as_deref(),
        Some("--jogo")
    );
    assert_eq!(
        endereco_de_teste(&args(&["a", "--jogo", "1", "--jogo", "2"])).as_deref(),
        Some("1")
    );
}
