//! The decisions of the demo agent that drives a client: open a file,
//! twice write two messages and read the file back twice over, then close
//! it. The agent stops when the open fails, and reopens the file after a
//! write or a read that failed, then goes on with the next step.
//!
//! The caller performs each action on a client and hands the result code
//! back to `passo`, which says what to do next.
use vstd::prelude::*;

verus! {

/// The step after the last write and read: the close.
pub const PASSO_FECHA: u32 = 13;

/// The step at which the agent has stopped.
pub const PASSO_FIM: u32 = 14;

/// What the agent does next.
#[derive(PartialEq, Eq, Structural, Clone, Copy, Debug)]
pub enum Acao {
    /// Open the file.
    Abrir,
    /// Write message number `mensagem` at `posicao`.
    Escrever { posicao: u64, mensagem: u32 },
    /// Read at `posicao`.
    Ler { posicao: u64 },
    /// Open the file again; the result does not matter.
    Reabrir,
    /// Close the file.
    Fechar,
    /// Stop.
    Parar,
}

/// Where the agent is: the step whose action is under way, the position
/// that action uses, the size of each message, and whether the action
/// under way is a reopen after a failure (the step then comes next).
#[derive(PartialEq, Eq, Structural, Clone, Copy, Debug)]
pub struct EstadoAgente {
    pub passo: u32,
    pub posicao: u64,
    pub tamanho: u64,
    pub reabrindo: bool,
}

/// The position and action of step `passo` when the previous steps left
/// the position at `posicao`. Step 0 opens; steps 1 to 12 are two rounds
/// of: write at 0, write after it, then twice read at 0 and read after it;
/// step 13 closes; later steps stop.
pub open spec fn acao_do_passo(passo: u32, posicao: u64) -> (u64, Acao) {
    if passo == 0 {
        (posicao, Acao::Abrir)
    } else if passo < PASSO_FECHA {
        let k = (passo - 1) % 6;
        let ciclo = (passo - 1) / 6;
        if k == 0 {
            (0, Acao::Escrever { posicao: 0, mensagem: (2 * ciclo) as u32 })
        } else if k == 1 {
            (posicao, Acao::Escrever { posicao, mensagem: (2 * ciclo + 1) as u32 })
        } else if k == 2 || k == 4 {
            (0, Acao::Ler { posicao: 0 })
        } else {
            (posicao, Acao::Ler { posicao })
        }
    } else if passo == PASSO_FECHA {
        (posicao, Acao::Fechar)
    } else {
        (posicao, Acao::Parar)
    }
}

/// The agent at step `passo`, with the action of that step.
pub open spec fn vai(passo: u32, posicao: u64, tamanho: u64) -> (EstadoAgente, Acao) {
    let (p, a) = acao_do_passo(passo, posicao);
    (EstadoAgente { passo, posicao: p, tamanho, reabrindo: false }, a)
}

/// Whether the result `r` of the action of step `passo` is a success: a
/// write succeeds with 0, a read with anything but -1.
pub open spec fn sucesso(passo: u32, r: i32) -> bool {
    if (passo - 1) % 6 <= 1 {
        r == 0
    } else {
        r != -1
    }
}

/// Whether the agent moves its position on after result `r`.
pub open spec fn avanca(e: EstadoAgente, r: i32) -> bool {
    !e.reabrindo && 1 <= e.passo < PASSO_FECHA && sucesso(e.passo, r)
}

/// What the agent does after the action of `e` gave `r`.
pub open spec fn agent_step(e: EstadoAgente, r: i32) -> (EstadoAgente, Acao) {
    if e.reabrindo {
        vai(e.passo, e.posicao, e.tamanho)
    } else if e.passo == 0 {
        if r == 0 {
            vai(1, e.posicao, e.tamanho)
        } else {
            (EstadoAgente { passo: PASSO_FIM, ..e }, Acao::Parar)
        }
    } else if e.passo < PASSO_FECHA {
        if sucesso(e.passo, r) {
            vai((e.passo + 1) as u32, (e.posicao + e.tamanho) as u64, e.tamanho)
        } else {
            (EstadoAgente { passo: (e.passo + 1) as u32, reabrindo: true, ..e }, Acao::Reabrir)
        }
    } else {
        (EstadoAgente { passo: PASSO_FIM, ..e }, Acao::Parar)
    }
}

/// How far the agent is from stopping.
pub open spec fn distancia(e: EstadoAgente) -> int {
    2 * (PASSO_FIM - e.passo) + if e.reabrindo {
        1int
    } else {
        0int
    }
}

/// The agent always gets nearer to stopping, and stops only at the end:
/// from a state it can be in, each step brings it closer until it stops.
pub proof fn law_agent_stops(e: EstadoAgente, r: i32)
    requires
        e.passo <= PASSO_FIM,
        e.reabrindo ==> e.passo <= PASSO_FECHA,
    ensures
        ({
            let (n, a) = agent_step(e, r);
            &&& n.passo <= PASSO_FIM
            &&& n.reabrindo ==> n.passo <= PASSO_FECHA
            &&& (e.passo < PASSO_FIM || e.reabrindo) ==> 0 <= distancia(n) < distancia(e)
            &&& (a == Acao::Parar <==> n.passo == PASSO_FIM && !n.reabrindo)
        }),
{
}

/// A failed write or read makes the agent reopen the file before it goes
/// on: at a write step (1, 2, 7 and 8) any result but 0, and at a read
/// step (3 to 6 and 9 to 12) the result -1, lead to a reopen, with the
/// step moved on by one and the position and size kept.
pub proof fn law_failure_reopens(e: EstadoAgente, r: i32)
    requires
        !e.reabrindo,
        ((e.passo == 1 || e.passo == 2 || e.passo == 7 || e.passo == 8) && r != 0) || ((3
            <= e.passo <= 6 || 9 <= e.passo <= 12) && r == -1),
    ensures
        agent_step(e, r).1 == Acao::Reabrir,
        agent_step(e, r).0 == (EstadoAgente {
            passo: (e.passo + 1) as u32,
            posicao: e.posicao,
            tamanho: e.tamanho,
            reabrindo: true,
        }),
{
}

/// The result of a reopen does not matter: the agent then does the step
/// that comes after the failed one, from the position the failure left,
/// and never reopens twice in a row.
pub proof fn law_reopen_resumes(e: EstadoAgente, r1: i32, r2: i32)
    requires
        e.reabrindo,
        2 <= e.passo <= PASSO_FECHA,
    ensures
        agent_step(e, r1) == agent_step(e, r2),
        agent_step(e, r1).0.passo == e.passo,
        !agent_step(e, r1).0.reabrindo,
        agent_step(e, r1).1 != Acao::Reabrir,
        agent_step(e, r1).1 is Escrever ==> agent_step(e, r1).1 == (Acao::Escrever {
            posicao: agent_step(e, r1).0.posicao,
            mensagem: if e.passo == 2 {
                1u32
            } else if e.passo == 7 {
                2u32
            } else {
                3u32
            },
        }),
        (e.passo == 3 || e.passo == 5 || e.passo == 9 || e.passo == 11) ==> agent_step(e, r1)
            == (EstadoAgente { passo: e.passo, posicao: 0, tamanho: e.tamanho, reabrindo: false },
        Acao::Ler { posicao: 0 }),
        (e.passo == 2 || e.passo == 4 || e.passo == 6 || e.passo == 8 || e.passo == 10
            || e.passo == 12) ==> agent_step(e, r1).0.posicao == e.posicao,
        e.passo == PASSO_FECHA ==> agent_step(e, r1).1 == Acao::Fechar,
{
}

/// The open decides whether the agent runs: when it succeeds (result 0)
/// the agent writes message 0 at position 0, and otherwise it stops.
pub proof fn law_open_decides(e: EstadoAgente, r: i32)
    requires
        !e.reabrindo,
        e.passo == 0,
    ensures
        r == 0 ==> agent_step(e, r) == (EstadoAgente {
            passo: 1,
            posicao: 0,
            tamanho: e.tamanho,
            reabrindo: false,
        }, Acao::Escrever { posicao: 0, mensagem: 0 }),
        r != 0 ==> agent_step(e, r).1 == Acao::Parar && agent_step(e, r).0.passo == PASSO_FIM,
{
}

/// After a write or read that succeeded (a write with 0, a read with
/// anything but -1) the agent moves on one step and on by one message:
/// the first write of each round and every other read start at position
/// 0, the other writes and reads come right after the previous one, and
/// after the last read of the second round it closes the file.
pub proof fn law_success_moves_on(e: EstadoAgente, r: i32)
    requires
        !e.reabrindo,
        ((e.passo == 1 || e.passo == 2 || e.passo == 7 || e.passo == 8) && r == 0) || ((3
            <= e.passo <= 6 || 9 <= e.passo <= 12) && r != -1),
        e.posicao + e.tamanho <= u64::MAX,
    ensures
        ({
            let (n, a) = agent_step(e, r);
            let p = (e.posicao + e.tamanho) as u64;
            &&& n.passo == e.passo + 1
            &&& !n.reabrindo
            &&& n.tamanho == e.tamanho
            &&& n.passo == 2 ==> n.posicao == p && a == Acao::Escrever { posicao: p, mensagem: 1 }
            &&& n.passo == 7 ==> n.posicao == 0 && a == Acao::Escrever { posicao: 0, mensagem: 2 }
            &&& n.passo == 8 ==> n.posicao == p && a == Acao::Escrever { posicao: p, mensagem: 3 }
            &&& (n.passo == 3 || n.passo == 5 || n.passo == 9 || n.passo == 11) ==> n.posicao == 0
                && a == Acao::Ler { posicao: 0 }
            &&& (n.passo == 4 || n.passo == 6 || n.passo == 10 || n.passo == 12) ==> n.posicao == p
                && a == Acao::Ler { posicao: p }
            &&& n.passo == PASSO_FECHA ==> a == Acao::Fechar
        }),
{
}

/// The agent before it does anything: its first action opens the file.
pub fn inicio(tamanho: u64) -> (r: (EstadoAgente, Acao))
    ensures
        r == vai(0, 0, tamanho),
{
    (EstadoAgente { passo: 0, posicao: 0, tamanho, reabrindo: false }, Acao::Abrir)
}

/// The position and action of step `passo`.
fn acao(passo: u32, posicao: u64) -> (r: (u64, Acao))
    ensures
        r == acao_do_passo(passo, posicao),
{
    if passo == 0 {
        (posicao, Acao::Abrir)
    } else if passo < PASSO_FECHA {
        let k = (passo - 1) % 6;
        let ciclo = (passo - 1) / 6;
        if k == 0 {
            (0, Acao::Escrever { posicao: 0, mensagem: 2 * ciclo })
        } else if k == 1 {
            (posicao, Acao::Escrever { posicao, mensagem: 2 * ciclo + 1 })
        } else if k == 2 || k == 4 {
            (0, Acao::Ler { posicao: 0 })
        } else {
            (posicao, Acao::Ler { posicao })
        }
    } else if passo == PASSO_FECHA {
        (posicao, Acao::Fechar)
    } else {
        (posicao, Acao::Parar)
    }
}

/// What the agent does after the action of `e` gave the result code `r`.
pub fn passo(e: &EstadoAgente, r: i32) -> (n: (EstadoAgente, Acao))
    requires
        avanca(*e, r) ==> e.posicao + e.tamanho <= u64::MAX,
    ensures
        n == agent_step(*e, r),
{
    if e.reabrindo {
        let (p, a) = acao(e.passo, e.posicao);
        (EstadoAgente { passo: e.passo, posicao: p, tamanho: e.tamanho, reabrindo: false }, a)
    } else if e.passo == 0 {
        if r == 0 {
            let (p, a) = acao(1, e.posicao);
            (EstadoAgente { passo: 1, posicao: p, tamanho: e.tamanho, reabrindo: false }, a)
        } else {
            (EstadoAgente { passo: PASSO_FIM, ..*e }, Acao::Parar)
        }
    } else if e.passo < PASSO_FECHA {
        let ok = if (e.passo - 1) % 6 <= 1 {
            r == 0
        } else {
            r != -1
        };
        if ok {
            let (p, a) = acao(e.passo + 1, e.posicao + e.tamanho);
            (EstadoAgente { passo: e.passo + 1, posicao: p, tamanho: e.tamanho, reabrindo: false }, a)
        } else {
            (EstadoAgente { passo: e.passo + 1, reabrindo: true, ..*e }, Acao::Reabrir)
        }
    } else {
        (EstadoAgente { passo: PASSO_FIM, ..*e }, Acao::Parar)
    }
}

} // verus!
