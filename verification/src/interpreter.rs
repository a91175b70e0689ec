//! The tree-walking interpreter.
//!
//! A run owns a fixed tape of 30,000 byte cells, a pointer into it, the
//! bytes still to be read, and the bytes written so far. Cell arithmetic
//! wraps modulo 256. The pointer wraps modulo the tape length, so a move
//! past either end lands on the opposite end; this is the documented
//! bounds policy of this implementation. When the input is exhausted, a
//! read instruction leaves the current cell unchanged.
//!
//! The language has no halting guarantee, so an execution is measured in
//! fuel: one unit per instruction step and per loop test. A run that does
//! not finish within its fuel reports so instead of diverging.

use vstd::prelude::*;
use crate::parser::Node;

verus! {

/// Number of byte cells on the tape.
pub const TAPE_LEN: usize = 30000;

/// The whole observable state of one run: tape, pointer, remaining input,
/// output so far.
pub ghost struct MachineState {
    pub mem: Seq<u8>,
    pub ptr: int,
    pub inp: Seq<u8>,
    pub out: Seq<u8>,
}

/// A machine state is well formed when the tape has its fixed length and
/// the pointer lies on it.
pub open spec fn st_wf(s: MachineState) -> bool {
    &&& s.mem.len() == TAPE_LEN
    &&& 0 <= s.ptr < TAPE_LEN
}

/// One pointer step to the right, wrapping at the end of the tape.
pub open spec fn ptr_right(p: int) -> int {
    if p == TAPE_LEN - 1 {
        0
    } else {
        p + 1
    }
}

/// One pointer step to the left, wrapping at the start of the tape.
pub open spec fn ptr_left(p: int) -> int {
    if p == 0 {
        TAPE_LEN - 1
    } else {
        p - 1
    }
}

/// One increment of a cell, wrapping modulo 256.
pub open spec fn inc_byte(b: u8) -> u8 {
    if b == 255 {
        0
    } else {
        (b + 1) as u8
    }
}

/// One decrement of a cell, wrapping modulo 256.
pub open spec fn dec_byte(b: u8) -> u8 {
    if b == 0 {
        255
    } else {
        (b - 1) as u8
    }
}

/// Executes the instruction sequence `ns` from state `s` with the given
/// fuel: one unit per instruction step and per loop test. Returns the final
/// state and the fuel left, or `None` when the fuel runs out first.
///
/// A loop whose guard cell is non-zero unfolds into its body followed by
/// the loop itself; a loop whose guard cell is zero is skipped. This is the
/// single semantics both backends must reproduce.
pub open spec fn run_seq(ns: Seq<Node>, s: MachineState, fuel: nat) -> Option<(MachineState, nat)>
    decreases fuel,
{
    if ns.len() == 0 {
        Some((s, fuel))
    } else if fuel == 0 {
        None
    } else {
        let f2 = (fuel - 1) as nat;
        let rest = ns.drop_first();
        match ns[0] {
            Node::IncPtr => run_seq(rest, MachineState { ptr: ptr_right(s.ptr), ..s }, f2),
            Node::DecPtr => run_seq(rest, MachineState { ptr: ptr_left(s.ptr), ..s }, f2),
            Node::IncCell => run_seq(
                rest,
                MachineState { mem: s.mem.update(s.ptr, inc_byte(s.mem[s.ptr])), ..s },
                f2,
            ),
            Node::DecCell => run_seq(
                rest,
                MachineState { mem: s.mem.update(s.ptr, dec_byte(s.mem[s.ptr])), ..s },
                f2,
            ),
            Node::Output => run_seq(rest, MachineState { out: s.out.push(s.mem[s.ptr]), ..s }, f2),
            Node::Input => if s.inp.len() == 0 {
                run_seq(rest, s, f2)
            } else {
                run_seq(
                    rest,
                    MachineState { mem: s.mem.update(s.ptr, s.inp[0]), inp: s.inp.drop_first(), ..s },
                    f2,
                )
            },
            Node::Loop(body) => if s.mem[s.ptr] == 0 {
                run_seq(rest, s, f2)
            } else {
                run_seq(body@ + ns, s, f2)
            },
        }
    }
}

/// Running `a + b` is running `a`, then running `b` from where `a` ended,
/// on the fuel `a` left over.
pub proof fn lemma_run_seq_app(a: Seq<Node>, b: Seq<Node>, s: MachineState, fuel: nat)
    ensures
        run_seq(a + b, s, fuel) == (match run_seq(a, s, fuel) {
            Some(r) => run_seq(b, r.0, r.1),
            None => None,
        }),
    decreases fuel,
{
    if a.len() == 0 {
        assert(a + b =~= b);
    } else if fuel == 0 {
        assert((a + b).len() > 0);
    } else {
        let f2 = (fuel - 1) as nat;
        assert((a + b)[0] == a[0]);
        assert((a + b).drop_first() =~= a.drop_first() + b);
        let rest = a.drop_first();
        match a[0] {
            Node::IncPtr => lemma_run_seq_app(rest, b, MachineState { ptr: ptr_right(s.ptr), ..s }, f2),
            Node::DecPtr => lemma_run_seq_app(rest, b, MachineState { ptr: ptr_left(s.ptr), ..s }, f2),
            Node::IncCell => lemma_run_seq_app(
                rest,
                b,
                MachineState { mem: s.mem.update(s.ptr, inc_byte(s.mem[s.ptr])), ..s },
                f2,
            ),
            Node::DecCell => lemma_run_seq_app(
                rest,
                b,
                MachineState { mem: s.mem.update(s.ptr, dec_byte(s.mem[s.ptr])), ..s },
                f2,
            ),
            Node::Output => lemma_run_seq_app(
                rest,
                b,
                MachineState { out: s.out.push(s.mem[s.ptr]), ..s },
                f2,
            ),
            Node::Input => if s.inp.len() == 0 {
                lemma_run_seq_app(rest, b, s, f2);
            } else {
                lemma_run_seq_app(
                    rest,
                    b,
                    MachineState { mem: s.mem.update(s.ptr, s.inp[0]), inp: s.inp.drop_first(), ..s },
                    f2,
                );
            },
            Node::Loop(body) => if s.mem[s.ptr] == 0 {
                lemma_run_seq_app(rest, b, s, f2);
            } else {
                assert(body@ + (a + b) =~= (body@ + a) + b);
                lemma_run_seq_app(body@ + a, b, s, f2);
            },
        }
    }
}

/// The instruction `n` repeated `k` times.
pub open spec fn repeated(n: Node, k: nat) -> Seq<Node> {
    Seq::new(k, |i: int| n)
}

/// The cell value after `k` increments of `b`, modulo 256.
pub open spec fn add_mod(b: u8, k: nat) -> u8 {
    ((b + k) % 256) as u8
}

/// The cell value after `k` decrements of `b`, modulo 256.
pub open spec fn sub_mod(b: u8, k: nat) -> u8 {
    ((b - k) % 256) as u8
}

/// `k` increment instructions in a row add `k` to the current cell modulo
/// 256 and change nothing else; each costs one fuel unit.
pub proof fn lemma_inc_cell_repeated(s: MachineState, k: nat, fuel: nat)
    requires
        st_wf(s),
        fuel >= k,
    ensures
        run_seq(repeated(Node::IncCell, k), s, fuel) == Some((
            (MachineState { mem: s.mem.update(s.ptr, add_mod(s.mem[s.ptr], k)), ..s }),
            (fuel - k) as nat,
        )),
    decreases k,
{
    let b = s.mem[s.ptr];
    if k == 0 {
        vstd::arithmetic::div_mod::lemma_small_mod(b as nat, 256);
        assert(s.mem.update(s.ptr, add_mod(b, 0)) =~= s.mem);
    } else {
        let ns = repeated(Node::IncCell, k);
        assert(ns[0] == Node::IncCell);
        assert(ns.drop_first() =~= repeated(Node::IncCell, (k - 1) as nat));
        let s1 = MachineState { mem: s.mem.update(s.ptr, inc_byte(b)), ..s };
        lemma_inc_cell_repeated(s1, (k - 1) as nat, (fuel - 1) as nat);
        assert(s1.mem[s.ptr] == inc_byte(b));
        if b == 255 {
            vstd::arithmetic::div_mod::lemma_mod_multiples_vanish(1, k - 1, 256);
        }
        assert(add_mod(inc_byte(b), (k - 1) as nat) == add_mod(b, k));
        assert(s1.mem.update(s.ptr, add_mod(b, k)) =~= s.mem.update(s.ptr, add_mod(b, k)));
    }
}

/// `k` decrement instructions in a row subtract `k` from the current cell
/// modulo 256 and change nothing else; each costs one fuel unit.
pub proof fn lemma_dec_cell_repeated(s: MachineState, k: nat, fuel: nat)
    requires
        st_wf(s),
        fuel >= k,
    ensures
        run_seq(repeated(Node::DecCell, k), s, fuel) == Some((
            (MachineState { mem: s.mem.update(s.ptr, sub_mod(s.mem[s.ptr], k)), ..s }),
            (fuel - k) as nat,
        )),
    decreases k,
{
    let b = s.mem[s.ptr];
    if k == 0 {
        vstd::arithmetic::div_mod::lemma_small_mod(b as nat, 256);
        assert(s.mem.update(s.ptr, sub_mod(b, 0)) =~= s.mem);
    } else {
        let ns = repeated(Node::DecCell, k);
        assert(ns[0] == Node::DecCell);
        assert(ns.drop_first() =~= repeated(Node::DecCell, (k - 1) as nat));
        let s1 = MachineState { mem: s.mem.update(s.ptr, dec_byte(b)), ..s };
        lemma_dec_cell_repeated(s1, (k - 1) as nat, (fuel - 1) as nat);
        assert(s1.mem[s.ptr] == dec_byte(b));
        if b == 0 {
            vstd::arithmetic::div_mod::lemma_mod_multiples_vanish(1, 0 - k, 256);
        }
        assert(sub_mod(dec_byte(b), (k - 1) as nat) == sub_mod(b, k));
        assert(s1.mem.update(s.ptr, sub_mod(b, k)) =~= s.mem.update(s.ptr, sub_mod(b, k)));
    }
}

/// Wraparound law: 256 increment instructions in a row leave the whole
/// state as it was, and so do 256 decrements; only fuel is spent.
pub proof fn lemma_cell_wraparound(s: MachineState, fuel: nat)
    requires
        st_wf(s),
        fuel >= 256,
    ensures
        run_seq(repeated(Node::IncCell, 256), s, fuel) == Some((s, (fuel - 256) as nat)),
        run_seq(repeated(Node::DecCell, 256), s, fuel) == Some((s, (fuel - 256) as nat)),
{
    let b = s.mem[s.ptr];
    lemma_inc_cell_repeated(s, 256, fuel);
    lemma_dec_cell_repeated(s, 256, fuel);
    vstd::arithmetic::div_mod::lemma_mod_multiples_vanish(1, b as int, 256);
    vstd::arithmetic::div_mod::lemma_mod_multiples_vanish(-1, b as int + 256, 256);
    vstd::arithmetic::div_mod::lemma_small_mod(b as nat, 256);
    assert(add_mod(b, 256) == b);
    assert(sub_mod(b, 256) == b);
    assert(s.mem.update(s.ptr, b) =~= s.mem);
}

/// `k` pairs of one move right followed immediately by one move left.
pub open spec fn move_pairs(k: nat) -> Seq<Node>
    decreases k,
{
    if k == 0 {
        Seq::empty()
    } else {
        seq![Node::IncPtr, Node::DecPtr] + move_pairs((k - 1) as nat)
    }
}

/// Move-cancellation law: any number of right-left move pairs returns the
/// pointer, indeed the whole state, to where it started; each move costs
/// one fuel unit.
pub proof fn lemma_move_cancellation(s: MachineState, k: nat, fuel: nat)
    requires
        st_wf(s),
        fuel >= 2 * k,
    ensures
        run_seq(move_pairs(k), s, fuel) == Some((s, (fuel - 2 * k) as nat)),
    decreases k,
{
    reveal_with_fuel(run_seq, 3);
    if k != 0 {
        let ns = move_pairs(k);
        assert(ns[0] == Node::IncPtr);
        let s1 = MachineState { ptr: ptr_right(s.ptr), ..s };
        let ns1 = seq![Node::DecPtr] + move_pairs((k - 1) as nat);
        assert(ns.drop_first() =~= ns1);
        assert(ns1[0] == Node::DecPtr);
        assert(ns1.drop_first() =~= move_pairs((k - 1) as nat));
        let s2 = MachineState { ptr: ptr_left(ptr_right(s.ptr)), ..s1 };
        assert(s2 == s);
        lemma_move_cancellation(s, (k - 1) as nat, (fuel - 2) as nat);
    }
}

/// Move-cancellation law, the other grouping: `k` moves right followed by
/// `k` moves left also return the whole state to where it started.
pub proof fn lemma_move_out_and_back(s: MachineState, k: nat, fuel: nat)
    requires
        st_wf(s),
        fuel >= 2 * k,
    ensures
        run_seq(repeated(Node::IncPtr, k) + repeated(Node::DecPtr, k), s, fuel) == Some((
            s,
            (fuel - 2 * k) as nat,
        )),
    decreases k,
{
    reveal_with_fuel(run_seq, 2);
    let a = repeated(Node::IncPtr, k) + repeated(Node::DecPtr, k);
    if k == 0 {
        assert(a =~= Seq::<Node>::empty());
    } else {
        assert(a[0] == Node::IncPtr);
        let s1 = MachineState { ptr: ptr_right(s.ptr), ..s };
        let mid = repeated(Node::IncPtr, (k - 1) as nat) + repeated(Node::DecPtr, (k - 1) as nat);
        assert(a.drop_first() =~= mid + seq![Node::DecPtr]);
        lemma_move_out_and_back(s1, (k - 1) as nat, (fuel - 1) as nat);
        lemma_run_seq_app(mid, seq![Node::DecPtr], s1, (fuel - 1) as nat);
        assert(seq![Node::DecPtr][0] == Node::DecPtr);
        assert(seq![Node::DecPtr].drop_first() =~= Seq::<Node>::empty());
        let s2 = MachineState { ptr: ptr_left(ptr_right(s.ptr)), ..s1 };
        assert(s2 == s);
    }
}

/// Non-entry law: a loop whose guard cell is zero at entry executes its
/// body zero times; only the one guard test costs fuel.
pub proof fn lemma_loop_not_entered(n: Node, s: MachineState, fuel: nat)
    requires
        n is Loop,
        st_wf(s),
        s.mem[s.ptr] == 0,
        fuel >= 1,
    ensures
        run_seq(seq![n], s, fuel) == Some((s, (fuel - 1) as nat)),
{
    reveal_with_fuel(run_seq, 2);
    assert(seq![n][0] == n);
    assert(seq![n].drop_first() =~= Seq::<Node>::empty());
}

/// Loop-termination law: a loop whose body is a single decrement of its
/// own guard cell terminates after exactly as many iterations as the
/// cell's initial value `v`, leaving that cell zero and everything else
/// unchanged. Each iteration costs one guard test and one decrement, and
/// the final guard test costs one more: `2 * v + 1` fuel in all.
pub proof fn lemma_loop_countdown(n: Node, s: MachineState, fuel: nat)
    requires
        n is Loop,
        n->Loop_0@ == seq![Node::DecCell],
        st_wf(s),
        fuel >= 2 * s.mem[s.ptr] + 1,
    ensures
        run_seq(seq![n], s, fuel) == Some((
            (MachineState { mem: s.mem.update(s.ptr, 0u8), ..s }),
            (fuel - 2 * s.mem[s.ptr] - 1) as nat,
        )),
    decreases s.mem[s.ptr],
{
    reveal_with_fuel(run_seq, 3);
    let v = s.mem[s.ptr];
    assert(seq![n][0] == n);
    if v == 0 {
        assert(seq![n].drop_first() =~= Seq::<Node>::empty());
        assert(s.mem.update(s.ptr, 0u8) =~= s.mem);
    } else {
        let body = n->Loop_0@;
        assert(body + seq![n] =~= seq![Node::DecCell, n]);
        let ns1 = seq![Node::DecCell, n];
        assert(ns1[0] == Node::DecCell);
        assert(ns1.drop_first() =~= seq![n]);
        let s1 = MachineState { mem: s.mem.update(s.ptr, dec_byte(v)), ..s };
        assert(s1.mem[s1.ptr] == dec_byte(v));
        lemma_loop_countdown(n, s1, (fuel - 2) as nat);
        assert(s1.mem.update(s.ptr, 0u8) =~= s.mem.update(s.ptr, 0u8));
    }
}

/// A run of one program: the tape, the pointer, the input not yet read,
/// and the output written so far.
pub struct Interpreter {
    pub memory: Vec<u8>,
    pub ptr: usize,
    pub input: Vec<u8>,
    pub in_pos: usize,
    pub output: Vec<u8>,
}

impl View for Interpreter {
    type V = MachineState;

    open spec fn view(&self) -> MachineState {
        MachineState {
            mem: self.memory@,
            ptr: self.ptr as int,
            inp: self.input@.skip(self.in_pos as int),
            out: self.output@,
        }
    }
}

impl Interpreter {
    /// The representation keeps the tape at its fixed length, the pointer
    /// on the tape, and the read position inside the input.
    pub open spec fn wf(&self) -> bool {
        &&& self.memory@.len() == TAPE_LEN
        &&& self.ptr < TAPE_LEN
        &&& self.in_pos <= self.input@.len()
    }

    /// A fresh run: tape all zero, pointer at the first cell, the whole
    /// input still to be read, no output yet.
    pub fn new(input: Vec<u8>) -> (r: Interpreter)
        ensures
            r.wf(),
            r@.mem.len() == TAPE_LEN,
            forall|i: int| 0 <= i < TAPE_LEN ==> r@.mem[i] == 0u8,
            r@.ptr == 0,
            r@.inp == input@,
            r@.out == Seq::<u8>::empty(),
    {
        let mut memory: Vec<u8> = Vec::new();
        let mut i: usize = 0;
        while i < TAPE_LEN
            invariant
                memory@.len() == i,
                i <= TAPE_LEN,
                forall|j: int| 0 <= j < i ==> memory@[j] == 0u8,
            decreases TAPE_LEN - i,
        {
            memory.push(0u8);
            i = i + 1;
        }
        let r = Interpreter { memory, ptr: 0, input, in_pos: 0, output: Vec::new() };
        proof {
            assert(r.input@.skip(0) =~= r.input@);
        }
        r
    }

    /// The bytes written so far, in program order.
    pub fn output(&self) -> (r: &Vec<u8>)
        ensures
            r@ == self@.out,
    {
        &self.output
    }

    /// The value of the cell at index `i`.
    pub fn cell(&self, i: usize) -> (r: u8)
        requires
            self.wf(),
            i < TAPE_LEN,
        ensures
            r == self@.mem[i as int],
    {
        self.memory[i]
    }

    /// The current pointer position.
    pub fn pointer(&self) -> (r: usize)
        ensures
            r as int == self@.ptr,
    {
        self.ptr
    }

    /// Executes the instruction sequence against this run's state, reading
    /// from the stored input and appending to the stored output, exactly as
    /// `run_seq` says. Returns the fuel left over, or `None` when the fuel
    /// ran out before the program finished.
    pub fn run(&mut self, nodes: &Vec<Node>, fuel: u64) -> (r: Option<u64>)
        requires
            old(self).wf(),
        ensures
            final(self).wf(),
            match r {
                Some(rem) => rem <= fuel && run_seq(nodes@, old(self)@, fuel as nat) == Some(
                    (final(self)@, rem as nat),
                ),
                None => run_seq(nodes@, old(self)@, fuel as nat) is None,
            },
        decreases fuel,
    {
        let ghost s0 = self@;
        let ghost f0 = fuel as nat;
        let mut f: u64 = fuel;
        let mut i: usize = 0;
        proof {
            assert(nodes@.skip(0) =~= nodes@);
        }
        while i < nodes.len()
            invariant
                old(self).wf(),
                self.wf(),
                s0 == old(self)@,
                f0 == fuel as nat,
                i <= nodes@.len(),
                f <= fuel,
                run_seq(nodes@, s0, f0) == run_seq(nodes@.skip(i as int), self@, f as nat),
            decreases nodes@.len() - i,
        {
            proof {
                assert(nodes@.skip(i as int).len() == nodes@.len() - i);
                assert(nodes@.skip(i as int)[0] == nodes@[i as int]);
                assert(nodes@.skip(i as int).drop_first() =~= nodes@.skip(i as int + 1));
            }
            if f == 0 {
                return None;
            }
            let ghost pre = self@;
            match &nodes[i] {
                Node::IncPtr => {
                    self.ptr = if self.ptr == TAPE_LEN - 1 {
                        0
                    } else {
                        self.ptr + 1
                    };
                    f = f - 1;
                    proof {
                        assert(self@ == MachineState { ptr: ptr_right(pre.ptr), ..pre });
                    }
                },
                Node::DecPtr => {
                    self.ptr = if self.ptr == 0 {
                        TAPE_LEN - 1
                    } else {
                        self.ptr - 1
                    };
                    f = f - 1;
                    proof {
                        assert(self@ == MachineState { ptr: ptr_left(pre.ptr), ..pre });
                    }
                },
                Node::IncCell => {
                    let v = self.memory[self.ptr];
                    let nv = if v == 255 {
                        0
                    } else {
                        v + 1
                    };
                    self.memory.set(self.ptr, nv);
                    f = f - 1;
                    proof {
                        assert(self@ == MachineState {
                            mem: pre.mem.update(pre.ptr, inc_byte(pre.mem[pre.ptr])),
                            ..pre
                        });
                    }
                },
                Node::DecCell => {
                    let v = self.memory[self.ptr];
                    let nv = if v == 0 {
                        255
                    } else {
                        v - 1
                    };
                    self.memory.set(self.ptr, nv);
                    f = f - 1;
                    proof {
                        assert(self@ == MachineState {
                            mem: pre.mem.update(pre.ptr, dec_byte(pre.mem[pre.ptr])),
                            ..pre
                        });
                    }
                },
                Node::Output => {
                    let b = self.memory[self.ptr];
                    self.output.push(b);
                    f = f - 1;
                    proof {
                        assert(self@ == MachineState { out: pre.out.push(pre.mem[pre.ptr]), ..pre });
                    }
                },
                Node::Input => {
                    if self.in_pos < self.input.len() {
                        let b = self.input[self.in_pos];
                        self.memory.set(self.ptr, b);
                        self.in_pos = self.in_pos + 1;
                        f = f - 1;
                        proof {
                            assert(pre.inp[0] == b);
                            assert(self.input@.skip(self.in_pos as int) =~= pre.inp.drop_first());
                            assert(self@ == MachineState {
                                mem: pre.mem.update(pre.ptr, pre.inp[0]),
                                inp: pre.inp.drop_first(),
                                ..pre
                            });
                        }
                    } else {
                        f = f - 1;
                        proof {
                            assert(pre.inp.len() == 0);
                        }
                    }
                },
                Node::Loop(body) => {
                    while self.memory[self.ptr] != 0
                        invariant
                            old(self).wf(),
                            self.wf(),
                            s0 == old(self)@,
                            f0 == fuel as nat,
                            i < nodes@.len(),
                            nodes@[i as int] == Node::Loop(*body),
                            f <= fuel,
                            run_seq(nodes@, s0, f0) == run_seq(
                                nodes@.skip(i as int),
                                self@,
                                f as nat,
                            ),
                        decreases f,
                    {
                        proof {
                            assert(nodes@.skip(i as int).len() == nodes@.len() - i);
                            assert(nodes@.skip(i as int)[0] == nodes@[i as int]);
                        }
                        if f == 0 {
                            return None;
                        }
                        f = f - 1;
                        let ghost sb = self@;
                        let r = self.run(body, f);
                        proof {
                            assert(run_seq(nodes@.skip(i as int), sb, (f + 1) as nat) == run_seq(
                                body@ + nodes@.skip(i as int),
                                sb,
                                f as nat,
                            ));
                            lemma_run_seq_app(body@, nodes@.skip(i as int), sb, f as nat);
                        }
                        match r {
                            None => {
                                return None;
                            },
                            Some(rem) => {
                                f = rem;
                            },
                        }
                    }
                    proof {
                        assert(nodes@.skip(i as int).len() == nodes@.len() - i);
                        assert(nodes@.skip(i as int)[0] == nodes@[i as int]);
                        assert(nodes@.skip(i as int).drop_first() =~= nodes@.skip(i as int + 1));
                    }
                    if f == 0 {
                        return None;
                    }
                    f = f - 1;
                },
            }
            i = i + 1;
        }
        proof {
            assert(nodes@.skip(nodes@.len() as int) =~= Seq::<Node>::empty());
        }
        Some(f)
    }
}

} // verus!
