use deathnote_ios::teclas::{
    mandar_tecla, tabela_de_teclas, DescritorDeTecla, EventoDeTecla, TeclaFisica, TeclaLogica,
    QUANTAS_TECLAS,
};

#[test]
fn tabela_na_ordem_dos_botoes() {
    let t = tabela_de_teclas();
    assert_eq!(t.len(), QUANTAS_TECLAS);
    let rotulos: Vec<&str> = t.iter().map(|k| k.rotulo).collect();
    assert_eq!(
        rotulos,
        vec!["1", "2", "3", "4", "Z", "X", "C", "\u{2190}", "\u{2191}", "\u{2192}", "\u{2193}", "ESPACO"]
    );
    assert_eq!(t[4].fisica, TeclaFisica::KeyZ);
    assert_eq!(t[4].caractere, 'z');
    assert_eq!(t[11].fisica, TeclaFisica::Space);
    assert_eq!(t[11].caractere, ' ');
}

#[test]
fn apertar_um_digito() {
    assert_eq!(
        mandar_tecla(0, true),
        Some(EventoDeTecla::Apertada(DescritorDeTecla {
            fisica: TeclaFisica::Digit1,
            logica: TeclaLogica::Caractere('1'),
        }))
    );
}

#[test]
fn soltar_uma_seta_nao_tem_caractere() {
    assert_eq!(
        mandar_tecla(7, false),
        Some(EventoDeTecla::Solta(DescritorDeTecla {
            fisica: TeclaFisica::ArrowLeft,
            logica: TeclaLogica::Desconhecida,
        }))
    );
    assert_eq!(
        mandar_tecla(10, true),
        Some(EventoDeTecla::Apertada(DescritorDeTecla {
            fisica: TeclaFisica::ArrowDown,
            logica: TeclaLogica::Desconhecida,
        }))
    );
}

#[test]
fn espaco_e_o_ultimo() {
    assert_eq!(
        mandar_tecla(11, true),
        Some(EventoDeTecla::Apertada(DescritorDeTecla {
            fisica: TeclaFisica::Space,
            logica: TeclaLogica::Caractere(' '),
        }))
    );
}

#[test]
fn etiqueta_fora_da_tabela_nao_manda_nada() {
    assert_eq!(mandar_tecla(12, true), None);
    assert_eq!(mandar_tecla(-1, false), None);
    assert_eq!(mandar_tecla(isize::MIN, true), None);
    assert_eq!(mandar_tecla(isize::MAX, true), None);
}

#[test]
fn lei_apertar_e_soltar_a_mesma_tecla() {
    for i in 0..QUANTAS_TECLAS as isize {
        match (mandar_tecla(i, true), mandar_tecla(i, false)) {
            (Some(EventoDeTecla::Apertada(a)), Some(EventoDeTecla::Solta(s))) => assert_eq!(a, s),
            outro => panic!("inesperado: {outro:?}"),
        }
    }
}
