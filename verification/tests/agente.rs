use remote_file_system::agente::{inicio, passo, Acao, EstadoAgente};

fn run(resultado: impl Fn(&Acao) -> i32) -> Vec<Acao> {
    let (mut estado, mut acao): (EstadoAgente, Acao) = inicio(23);
    let mut acoes = vec![acao];
    while acao != Acao::Parar {
        assert!(acoes.len() < 40, "the agent must stop");
        let r = resultado(&acao);
        let (e, a) = passo(&estado, r);
        estado = e;
        acao = a;
        acoes.push(acao);
    }
    acoes
}

#[test]
fn agent_script_when_all_succeeds() {
    let acoes = run(|a| match a {
        Acao::Ler { .. } => 23,
        _ => 0,
    });
    let expected = vec![
        Acao::Abrir,
        Acao::Escrever { posicao: 0, mensagem: 0 },
        Acao::Escrever { posicao: 23, mensagem: 1 },
        Acao::Ler { posicao: 0 },
        Acao::Ler { posicao: 23 },
        Acao::Ler { posicao: 0 },
        Acao::Ler { posicao: 23 },
        Acao::Escrever { posicao: 0, mensagem: 2 },
        Acao::Escrever { posicao: 23, mensagem: 3 },
        Acao::Ler { posicao: 0 },
        Acao::Ler { posicao: 23 },
        Acao::Ler { posicao: 0 },
        Acao::Ler { posicao: 23 },
        Acao::Fechar,
        Acao::Parar,
    ];
    assert_eq!(acoes, expected);
}

#[test]
fn agent_stops_when_open_fails() {
    let acoes = run(|_| -1);
    assert_eq!(acoes, vec![Acao::Abrir, Acao::Parar]);
}

#[test]
fn agent_reopens_after_failures_and_keeps_position() {
    let acoes = run(|a| match a {
        Acao::Abrir => 0,
        Acao::Escrever { mensagem: 0, .. } => -1,
        Acao::Ler { posicao: 0 } => -1,
        Acao::Ler { .. } => 23,
        _ => 0,
    });
    assert_eq!(acoes[1], Acao::Escrever { posicao: 0, mensagem: 0 });
    assert_eq!(acoes[2], Acao::Reabrir);
    assert_eq!(acoes[3], Acao::Escrever { posicao: 0, mensagem: 1 });
    assert_eq!(acoes[4], Acao::Ler { posicao: 0 });
    assert_eq!(acoes[5], Acao::Reabrir);
    assert_eq!(acoes[6], Acao::Ler { posicao: 0 });
    assert_eq!(*acoes.last().unwrap(), Acao::Parar);
    assert_eq!(acoes[acoes.len() - 2], Acao::Fechar);
}
