use xadrez::{Cor, Peca, PecaTipo, Posicao, Xadrez};

fn pos(linha: usize, coluna: usize) -> Posicao {
    Posicao { linha, coluna }
}

fn peca(tipo: PecaTipo, cor: Cor) -> Option<Peca> {
    Some(Peca { tipo, cor })
}

fn destinos_de(jogo: &mut Xadrez, p: Posicao) -> Vec<Posicao> {
    jogo.calcular_movimentos_validos(p);
    jogo.movimentos_validos().clone()
}

#[test]
fn posicao_inicial_completa() {
    let jogo = Xadrez::new();
    let traseiras = [
        PecaTipo::Torre,
        PecaTipo::Cavalo,
        PecaTipo::Bispo,
        PecaTipo::Rainha,
        PecaTipo::Rei,
        PecaTipo::Bispo,
        PecaTipo::Cavalo,
        PecaTipo::Torre,
    ];
    for c in 0..8 {
        assert_eq!(jogo.get_peca(pos(0, c)), peca(traseiras[c], Cor::Preto));
        assert_eq!(jogo.get_peca(pos(1, c)), peca(PecaTipo::Peao, Cor::Preto));
        for l in 2..6 {
            assert_eq!(jogo.get_peca(pos(l, c)), None);
        }
        assert_eq!(jogo.get_peca(pos(6, c)), peca(PecaTipo::Peao, Cor::Branco));
        assert_eq!(jogo.get_peca(pos(7, c)), peca(traseiras[c], Cor::Branco));
    }
    assert_eq!(jogo.turno(), Cor::Branco);
    assert_eq!(jogo.selecionada(), None);
    assert!(jogo.movimentos_validos().is_empty());
}

#[test]
fn peao_passo_duplo_livre() {
    let mut jogo = Xadrez::new();
    assert_eq!(destinos_de(&mut jogo, pos(6, 2)), vec![pos(5, 2), pos(4, 2)]);
    assert_eq!(destinos_de(&mut jogo, pos(1, 5)), vec![pos(2, 5), pos(3, 5)]);
}

#[test]
fn peao_passo_duplo_bloqueado() {
    let mut jogo = Xadrez::new();
    jogo.set_peca(pos(5, 3), peca(PecaTipo::Cavalo, Cor::Branco));
    let d = destinos_de(&mut jogo, pos(6, 3));
    assert!(!d.contains(&pos(4, 3)));
    assert!(d.is_empty());
}

#[test]
fn peao_fora_da_linha_inicial_avanca_uma() {
    let mut jogo = Xadrez::vazio();
    jogo.set_peca(pos(5, 0), peca(PecaTipo::Peao, Cor::Branco));
    assert_eq!(destinos_de(&mut jogo, pos(5, 0)), vec![pos(4, 0)]);
}

#[test]
fn peao_captura_na_diagonal() {
    let mut jogo = Xadrez::vazio();
    jogo.set_peca(pos(4, 4), peca(PecaTipo::Peao, Cor::Branco));
    jogo.set_peca(pos(3, 3), peca(PecaTipo::Bispo, Cor::Preto));
    jogo.set_peca(pos(3, 5), peca(PecaTipo::Bispo, Cor::Branco));
    jogo.set_peca(pos(3, 4), peca(PecaTipo::Torre, Cor::Preto));
    assert_eq!(destinos_de(&mut jogo, pos(4, 4)), vec![pos(3, 3)]);
}

#[test]
fn peao_preto_na_borda() {
    let mut jogo = Xadrez::vazio();
    jogo.set_peca(pos(1, 7), peca(PecaTipo::Peao, Cor::Preto));
    jogo.set_peca(pos(2, 6), peca(PecaTipo::Rei, Cor::Branco));
    assert_eq!(destinos_de(&mut jogo, pos(1, 7)), vec![pos(2, 7), pos(3, 7), pos(2, 6)]);
}

#[test]
fn torre_para_na_captura() {
    let mut jogo = Xadrez::vazio();
    jogo.set_peca(pos(4, 4), peca(PecaTipo::Torre, Cor::Branco));
    jogo.set_peca(pos(4, 6), peca(PecaTipo::Peao, Cor::Preto));
    jogo.set_peca(pos(2, 4), peca(PecaTipo::Peao, Cor::Branco));
    let d = destinos_de(&mut jogo, pos(4, 4));
    assert_eq!(
        d,
        vec![
            pos(4, 5),
            pos(4, 6),
            pos(5, 4),
            pos(6, 4),
            pos(7, 4),
            pos(4, 3),
            pos(4, 2),
            pos(4, 1),
            pos(4, 0),
            pos(3, 4),
        ]
    );
    assert!(!d.contains(&pos(4, 7)));
}

#[test]
fn bispo_no_canto() {
    let mut jogo = Xadrez::vazio();
    jogo.set_peca(pos(7, 0), peca(PecaTipo::Bispo, Cor::Preto));
    jogo.set_peca(pos(4, 3), peca(PecaTipo::Cavalo, Cor::Preto));
    assert_eq!(destinos_de(&mut jogo, pos(7, 0)), vec![pos(6, 1), pos(5, 2)]);
}

#[test]
fn rainha_une_torre_e_bispo() {
    let mut jogo = Xadrez::vazio();
    jogo.set_peca(pos(0, 0), peca(PecaTipo::Rainha, Cor::Branco));
    jogo.set_peca(pos(0, 2), peca(PecaTipo::Rei, Cor::Branco));
    jogo.set_peca(pos(2, 0), peca(PecaTipo::Torre, Cor::Preto));
    jogo.set_peca(pos(1, 1), peca(PecaTipo::Peao, Cor::Preto));
    assert_eq!(destinos_de(&mut jogo, pos(0, 0)), vec![pos(0, 1), pos(1, 0), pos(2, 0), pos(1, 1)]);
}

#[test]
fn cavalo_salta_sobre_pecas() {
    let mut jogo = Xadrez::new();
    jogo.set_peca(pos(1, 2), peca(PecaTipo::Peao, Cor::Branco));
    jogo.set_peca(pos(2, 1), peca(PecaTipo::Peao, Cor::Branco));
    let d = destinos_de(&mut jogo, pos(0, 1));
    assert_eq!(d, vec![pos(2, 0), pos(2, 2)]);
    jogo.set_peca(pos(2, 2), peca(PecaTipo::Bispo, Cor::Branco));
    assert_eq!(destinos_de(&mut jogo, pos(0, 1)), vec![pos(2, 0), pos(2, 2)]);
    jogo.set_peca(pos(2, 2), peca(PecaTipo::Bispo, Cor::Preto));
    assert_eq!(destinos_de(&mut jogo, pos(0, 1)), vec![pos(2, 0)]);
}

#[test]
fn rei_no_centro() {
    let mut jogo = Xadrez::vazio();
    jogo.set_peca(pos(3, 3), peca(PecaTipo::Rei, Cor::Preto));
    jogo.set_peca(pos(2, 3), peca(PecaTipo::Peao, Cor::Preto));
    jogo.set_peca(pos(4, 4), peca(PecaTipo::Peao, Cor::Branco));
    assert_eq!(
        destinos_de(&mut jogo, pos(3, 3)),
        vec![pos(2, 2), pos(2, 4), pos(3, 2), pos(3, 4), pos(4, 2), pos(4, 3), pos(4, 4)]
    );
}

#[test]
fn casa_vazia_sem_destinos() {
    let mut jogo = Xadrez::new();
    assert!(destinos_de(&mut jogo, pos(4, 4)).is_empty());
}

#[test]
fn posicao_nova_valida_limites() {
    assert_eq!(Posicao::nova(7, 0), Some(pos(7, 0)));
    assert_eq!(Posicao::nova(8, 0), None);
    assert_eq!(Posicao::nova(0, 8), None);
}

#[test]
fn mover_peca_captura_e_passa_o_turno() {
    let mut jogo = Xadrez::vazio();
    jogo.set_peca(pos(4, 4), peca(PecaTipo::Torre, Cor::Branco));
    jogo.set_peca(pos(4, 6), peca(PecaTipo::Peao, Cor::Preto));
    jogo.mover_peca(pos(4, 4), pos(4, 6));
    assert_eq!(jogo.get_peca(pos(4, 4)), None);
    assert_eq!(jogo.get_peca(pos(4, 6)), peca(PecaTipo::Torre, Cor::Branco));
    assert_eq!(jogo.turno(), Cor::Preto);
    assert_eq!(jogo.selecionada(), None);
    assert!(jogo.movimentos_validos().is_empty());
}

#[test]
fn movimento_valido_consulta_destinos() {
    let mut jogo = Xadrez::new();
    jogo.calcular_movimentos_validos(pos(7, 6));
    assert!(jogo.movimento_valido(pos(7, 6), pos(5, 5)));
    assert!(jogo.movimento_valido(pos(7, 6), pos(5, 7)));
    assert!(!jogo.movimento_valido(pos(7, 6), pos(6, 4)));
}
