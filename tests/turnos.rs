use xadrez::{Cor, Peca, PecaTipo, Posicao, Xadrez};

fn pos(linha: usize, coluna: usize) -> Posicao {
    Posicao { linha, coluna }
}

#[test]
fn cenario_ponta_a_ponta() {
    let mut jogo = Xadrez::new();
    jogo.clicar_casa(pos(6, 4));
    assert_eq!(jogo.selecionada(), Some(pos(6, 4)));
    assert!(jogo.movimentos_validos().contains(&pos(5, 4)));
    assert!(jogo.movimentos_validos().contains(&pos(4, 4)));
    jogo.clicar_casa(pos(4, 4));
    assert_eq!(jogo.get_peca(pos(6, 4)), None);
    assert_eq!(jogo.get_peca(pos(4, 4)), Some(Peca { tipo: PecaTipo::Peao, cor: Cor::Branco }));
    assert_eq!(jogo.turno(), Cor::Preto);
    assert_eq!(jogo.selecionada(), None);
    assert!(jogo.movimentos_validos().is_empty());
}

#[test]
fn troca_de_selecao() {
    let mut jogo = Xadrez::new();
    jogo.clicar_casa(pos(6, 4));
    jogo.clicar_casa(pos(6, 3));
    assert_eq!(jogo.selecionada(), Some(pos(6, 3)));
    assert_eq!(jogo.movimentos_validos(), &vec![pos(5, 3), pos(4, 3)]);
    assert_eq!(jogo.turno(), Cor::Branco);
    assert_eq!(jogo.get_peca(pos(6, 4)), Some(Peca { tipo: PecaTipo::Peao, cor: Cor::Branco }));
}

#[test]
fn clique_em_peca_adversaria_sem_selecao() {
    let mut jogo = Xadrez::new();
    jogo.clicar_casa(pos(1, 0));
    assert_eq!(jogo.selecionada(), None);
    assert!(jogo.movimentos_validos().is_empty());
    assert_eq!(jogo.turno(), Cor::Branco);
}

#[test]
fn clique_rejeitado_nao_passa_o_turno() {
    let mut jogo = Xadrez::new();
    jogo.clicar_casa(pos(6, 0));
    jogo.clicar_casa(pos(3, 0));
    assert_eq!(jogo.selecionada(), None);
    assert!(jogo.movimentos_validos().is_empty());
    assert_eq!(jogo.turno(), Cor::Branco);
    assert_eq!(jogo.get_peca(pos(6, 0)), Some(Peca { tipo: PecaTipo::Peao, cor: Cor::Branco }));
    jogo.clicar_casa(pos(4, 4));
    assert_eq!(jogo.turno(), Cor::Branco);
}

#[test]
fn clique_em_peca_adversaria_desfaz_selecao() {
    let mut jogo = Xadrez::new();
    jogo.clicar_casa(pos(7, 1));
    assert_eq!(jogo.movimentos_validos(), &vec![pos(5, 0), pos(5, 2)]);
    jogo.clicar_casa(pos(0, 0));
    assert_eq!(jogo.selecionada(), None);
    assert!(jogo.movimentos_validos().is_empty());
    assert_eq!(jogo.turno(), Cor::Branco);
}

#[test]
fn turnos_alternam() {
    let mut jogo = Xadrez::new();
    jogo.clicar_casa(pos(6, 4));
    jogo.clicar_casa(pos(4, 4));
    assert_eq!(jogo.turno(), Cor::Preto);
    jogo.clicar_casa(pos(6, 3));
    assert_eq!(jogo.selecionada(), None);
    jogo.clicar_casa(pos(1, 3));
    jogo.clicar_casa(pos(3, 3));
    assert_eq!(jogo.turno(), Cor::Branco);
    jogo.clicar_casa(pos(4, 4));
    assert_eq!(jogo.movimentos_validos(), &vec![pos(3, 4), pos(3, 3)]);
    jogo.clicar_casa(pos(3, 3));
    assert_eq!(jogo.get_peca(pos(3, 3)), Some(Peca { tipo: PecaTipo::Peao, cor: Cor::Branco }));
    assert_eq!(jogo.turno(), Cor::Preto);
}
