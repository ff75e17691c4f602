use vstd::prelude::*;

use crate::codegen::gen_stmt;
use crate::codegen::GenOut;
use crate::codegen::Stmt;
use crate::error::ErrV;
use crate::state::StView;

verus! {

// ---------------------------------------------------------------------------
// A small semantics of the target instruction set, enough to state what the
// emitted idioms do when executed. Instructions form a tree: a loop owns its
// body. Cell values are unbounded naturals; decrementing an empty cell
// leaves it empty (the emitted loops never do).
// ---------------------------------------------------------------------------
/// One primitive tape-machine instruction.
pub ghost enum BfInstr {
    Left,
    Right,
    Inc,
    Dec,
    Output,
    Input,
    Loop(Seq<BfInstr>),
}

/// A tape machine: the tape as a map from address to cell value, the head
/// position, the input not yet read, and the output so far.
#[verifier::ext_equal]
pub ghost struct Machine {
    pub tape: Map<int, nat>,
    pub head: int,
    pub input: Seq<nat>,
    pub output: Seq<nat>,
}

/// Running a program: each instruction in order. `None` means the run is
/// stuck: it met exhausted input, or the fuel bound on loop iterations.
pub open spec fn run_prog(p: Seq<BfInstr>, m: Machine, fuel: nat) -> Option<Machine>
    decreases fuel, p,
{
    if p.len() == 0 {
        Some(m)
    } else {
        match run_instr(p[0], m, fuel) {
            Some(m1) => run_prog(p.drop_first(), m1, fuel),
            None => None,
        }
    }
}

/// Running one instruction. A loop runs its body and re-enters while the
/// current cell is nonzero, spending one unit of fuel per iteration.
pub open spec fn run_instr(i: BfInstr, m: Machine, fuel: nat) -> Option<Machine>
    decreases fuel, i,
{
    match i {
        BfInstr::Left => Some(Machine { head: m.head - 1, ..m }),
        BfInstr::Right => Some(Machine { head: m.head + 1, ..m }),
        BfInstr::Inc => Some(
            Machine { tape: m.tape.insert(m.head, m.tape[m.head] + 1), ..m },
        ),
        BfInstr::Dec => Some(
            Machine {
                tape: m.tape.insert(
                    m.head,
                    if m.tape[m.head] == 0 {
                        0
                    } else {
                        (m.tape[m.head] - 1) as nat
                    },
                ),
                ..m
            },
        ),
        BfInstr::Output => Some(Machine { output: m.output.push(m.tape[m.head]), ..m }),
        BfInstr::Input => if m.input.len() == 0 {
            None
        } else {
            Some(
                Machine {
                    tape: m.tape.insert(m.head, m.input[0]),
                    input: m.input.drop_first(),
                    ..m
                },
            )
        },
        BfInstr::Loop(body) => if m.tape[m.head] == 0 {
            Some(m)
        } else if fuel == 0 {
            None
        } else {
            match run_prog(body, m, (fuel - 1) as nat) {
                Some(m1) => run_instr(BfInstr::Loop(body), m1, (fuel - 1) as nat),
                None => None,
            }
        },
    }
}

/// The instruction text of a program tree.
pub open spec fn flatten(p: Seq<BfInstr>) -> Seq<char>
    decreases p,
{
    if p.len() == 0 {
        Seq::empty()
    } else {
        flatten_instr(p[0]) + flatten(p.drop_first())
    }
}

pub open spec fn flatten_instr(i: BfInstr) -> Seq<char>
    decreases i,
{
    match i {
        BfInstr::Left => seq!['<'],
        BfInstr::Right => seq!['>'],
        BfInstr::Inc => seq!['+'],
        BfInstr::Dec => seq!['-'],
        BfInstr::Output => seq!['.'],
        BfInstr::Input => seq![','],
        BfInstr::Loop(body) => seq!['['] + flatten(body) + seq![']'],
    }
}

/// The decrement-until-zero idiom as an instruction tree.
pub open spec fn zero_loop() -> Seq<BfInstr> {
    seq![BfInstr::Loop(seq![BfInstr::Dec])]
}

/// Every address holds a cell: the tape is the whole unbounded array.
pub open spec fn tape_total(m: Machine) -> bool {
    forall|a: int| m.tape.contains_key(a)
}

/// What zero-current-cell emits is exactly the flattened zero loop, from any
/// state, which it leaves unchanged.
pub proof fn lemma_zero_text(st: StView)
    ensures
        gen_stmt(Stmt::Zero, st) == Ok::<GenOut, ErrV>(
            GenOut { st, text: flatten(zero_loop()) },
        ),
{
    assert(seq![BfInstr::Dec][0] == BfInstr::Dec);
    assert(seq![BfInstr::Dec].drop_first() =~= Seq::<BfInstr>::empty());
    assert(flatten(Seq::<BfInstr>::empty()) =~= Seq::<char>::empty());
    assert(flatten_instr(BfInstr::Dec) =~= seq!['-']);
    assert(flatten(seq![BfInstr::Dec]) =~= seq!['-']);
    assert(zero_loop()[0] == BfInstr::Loop(seq![BfInstr::Dec]));
    assert(zero_loop().drop_first() =~= Seq::<BfInstr>::empty());
    assert(flatten_instr(BfInstr::Loop(seq![BfInstr::Dec])) =~= seq!['['] + seq!['-']
        + seq![']']);
    assert(flatten(zero_loop()) =~= seq!['['] + seq!['-'] + seq![']']);
    assert(seq!['['] + seq!['-'] + seq![']'] =~= seq!['[', '-', ']']);
}

/// Law: regardless of the starting cell value, running the zero loop drives
/// the current cell to 0, leaves the head unmoved, and touches nothing else.
/// Any fuel beyond the starting value suffices.
pub proof fn lemma_zero_loop_runs(m: Machine, fuel: nat)
    requires
        tape_total(m),
        fuel > m.tape[m.head],
    ensures
        run_prog(zero_loop(), m, fuel) == Some(
            Machine { tape: m.tape.insert(m.head, 0), ..m },
        ),
    decreases m.tape[m.head],
{
    assert(zero_loop()[0] == BfInstr::Loop(seq![BfInstr::Dec]));
    assert(zero_loop().drop_first() =~= Seq::<BfInstr>::empty());
    lemma_zero_instr_runs(m, fuel);
    let r = Machine { tape: m.tape.insert(m.head, 0), ..m };
    assert(run_prog(Seq::<BfInstr>::empty(), r, fuel) == Some(r));
}

/// The same, for the loop instruction itself.
proof fn lemma_zero_instr_runs(m: Machine, fuel: nat)
    requires
        tape_total(m),
        fuel > m.tape[m.head],
    ensures
        run_instr(BfInstr::Loop(seq![BfInstr::Dec]), m, fuel) == Some(
            Machine { tape: m.tape.insert(m.head, 0), ..m },
        ),
    decreases m.tape[m.head],
{
    let v = m.tape[m.head];
    if v == 0 {
        assert(m.tape.insert(m.head, 0) =~= m.tape);
        assert(Machine { tape: m.tape.insert(m.head, 0), ..m } =~= m);
    } else {
        let m1 = Machine { tape: m.tape.insert(m.head, (v - 1) as nat), ..m };
        assert(seq![BfInstr::Dec][0] == BfInstr::Dec);
        assert(seq![BfInstr::Dec].drop_first() =~= Seq::<BfInstr>::empty());
        assert(run_instr(BfInstr::Dec, m, (fuel - 1) as nat) == Some(m1));
        assert(run_prog(Seq::<BfInstr>::empty(), m1, (fuel - 1) as nat) == Some(m1));
        assert(run_prog(seq![BfInstr::Dec], m, (fuel - 1) as nat) == Some(m1));
        lemma_zero_instr_runs(m1, (fuel - 1) as nat);
        assert(m1.tape.insert(m1.head, 0) =~= m.tape.insert(m.head, 0));
        assert(Machine { tape: m1.tape.insert(m1.head, 0), ..m1 } =~= (Machine {
            tape: m.tape.insert(m.head, 0),
            ..m
        }));
    }
}

} // verus!
