//! The IR code generator.
//!
//! Walks the instruction tree once and emits a textual intermediate
//! representation: a global declaration of the 30,000-cell tape (the same
//! length as `TAPE_LEN`), declarations of the two external I/O functions,
//! and one entry function whose labelled blocks reproduce the interpreter's
//! control flow. Every intermediate value name and every loop label carries
//! a counter value that is never reused, so no two names collide anywhere
//! in the emitted function.
//!
//! The exact text is pinned down by spec functions written as text
//! transformers: each takes the text emitted so far and returns the text
//! after one more emission step.

use vstd::prelude::*;
use vstd::string::*;
use crate::parser::Node;

verus! {

/// The decimal digit character for `d` (0 to 9).
pub open spec fn digit_char(d: nat) -> char {
    if d == 0 {
        '0'
    } else if d == 1 {
        '1'
    } else if d == 2 {
        '2'
    } else if d == 3 {
        '3'
    } else if d == 4 {
        '4'
    } else if d == 5 {
        '5'
    } else if d == 6 {
        '6'
    } else if d == 7 {
        '7'
    } else if d == 8 {
        '8'
    } else {
        '9'
    }
}

/// The decimal digits of `n`, most significant first, no leading zeros
/// (a single `'0'` for zero).
pub open spec fn dec_digits(n: nat) -> Seq<char>
    decreases n,
{
    if n < 10 {
        seq![digit_char(n)]
    } else {
        dec_digits(n / 10) + seq![digit_char(n % 10)]
    }
}

/// An intermediate value name: the `%` sigil, a short mnemonic prefix, and
/// the counter value.
pub open spec fn vname(prefix: Seq<char>, u: nat) -> Seq<char> {
    "%"@ + prefix + dec_digits(u)
}

/// `k` levels of indentation, two spaces each.
pub open spec fn ind(k: nat) -> Seq<char>
    decreases k,
{
    if k == 0 {
        Seq::empty()
    } else {
        ind((k - 1) as nat) + "  "@
    }
}

/// Text after one line at indentation level one.
pub open spec fn text_line1(t: Seq<char>, s: Seq<char>) -> Seq<char> {
    t + "  "@ + s + "\n"@
}

/// Text after one label line.
pub open spec fn text_label(t: Seq<char>, l: Seq<char>) -> Seq<char> {
    t + l + ":\n"@
}

/// The counter after emitting one node starting from counter `u`: a
/// pointer move uses two names, a cell add or subtract three, an output
/// three, an input five; a loop uses one label id and three names, then
/// whatever its body uses.
pub open spec fn uniq_after_node(n: Node, u: nat) -> nat
    decreases n,
{
    match n {
        Node::IncPtr => u + 2,
        Node::DecPtr => u + 2,
        Node::IncCell => u + 3,
        Node::DecCell => u + 3,
        Node::Output => u + 3,
        Node::Input => u + 5,
        Node::Loop(body) => uniq_after_nodes(body@, u + 4),
    }
}

/// The counter after emitting a sequence of nodes starting from `u`.
pub open spec fn uniq_after_nodes(ns: Seq<Node>, u: nat) -> nat
    decreases ns,
{
    if ns.len() == 0 {
        u
    } else {
        uniq_after_nodes(ns.subrange(1, ns.len() as int), uniq_after_node(ns[0], u))
    }
}

/// The counter never goes backwards.
pub proof fn lemma_uniq_mono_node(n: Node, u: nat)
    ensures
        uniq_after_node(n, u) >= u + 2,
    decreases n,
{
    match n {
        Node::Loop(body) => {
            lemma_uniq_mono_nodes(body@, u + 4);
        },
        _ => {},
    }
}

/// The counter never goes backwards over a sequence either.
pub proof fn lemma_uniq_mono_nodes(ns: Seq<Node>, u: nat)
    ensures
        uniq_after_nodes(ns, u) >= u,
    decreases ns,
{
    if ns.len() != 0 {
        lemma_uniq_mono_node(ns[0], u);
        lemma_uniq_mono_nodes(ns.subrange(1, ns.len() as int), uniq_after_node(ns[0], u));
    }
}

/// Text after a pointer move: load the pointer, compute the address one
/// step to the right or left, store it back.
pub open spec fn text_after_move(t: Seq<char>, u: nat, right: bool) -> Seq<char> {
    let p = vname("p"@, u);
    let q = vname("q"@, u + 1);
    let t1 = text_line1(t, p + " = load i8*, i8** %ptr"@);
    let t2 = text_line1(
        t1,
        (((q + " = getelementptr i8, i8* "@) + p) + ", i64 "@) + (if right {
            "1"@
        } else {
            "-1"@
        }),
    );
    text_line1(t2, ("store i8* "@ + q) + ", i8** %ptr"@)
}

/// Text after a cell increment or decrement: load the pointer, load the
/// byte, add or subtract one with eight-bit wraparound, store it back.
pub open spec fn text_after_add(t: Seq<char>, u: nat, plus: bool) -> Seq<char> {
    let p = vname("p"@, u);
    let v0 = vname("v"@, u + 1);
    let v1 = vname("v"@, u + 2);
    let t1 = text_line1(t, p + " = load i8*, i8** %ptr"@);
    let t2 = text_line1(t1, (v0 + " = load i8, i8* "@) + p);
    let t3 = text_line1(
        t2,
        ((v1 + (if plus {
            " = add i8 "@
        } else {
            " = sub i8 "@
        })) + v0) + ", 1"@,
    );
    text_line1(t3, ((("store i8 "@ + v1) + ", i8* "@) + p))
}

/// Text after an output instruction: load the byte, zero-extend it to the
/// I/O width, call the output function.
pub open spec fn text_after_output(t: Seq<char>, u: nat) -> Seq<char> {
    let p = vname("p"@, u);
    let v = vname("v"@, u + 1);
    let w = vname("w"@, u + 2);
    let t1 = text_line1(t, p + " = load i8*, i8** %ptr"@);
    let t2 = text_line1(t1, (v + " = load i8, i8* "@) + p);
    let t3 = text_line1(t2, ((w + " = zext i8 "@) + v) + " to i32"@);
    text_line1(t3, ("call i32 @putchar(i32 "@ + w) + ")"@)
}

/// Text after an input instruction: call the input function, map the
/// negative end-of-stream sentinel to zero, narrow to one byte, store it
/// at the pointer.
pub open spec fn text_after_input(t: Seq<char>, u: nat) -> Seq<char> {
    let p = vname("p"@, u);
    let c = vname("c"@, u + 1);
    let eof = vname("eof"@, u + 2);
    let cz = vname("cz"@, u + 3);
    let b = vname("b"@, u + 4);
    let t1 = text_line1(t, c + " = call i32 @getchar()"@);
    let t2 = text_line1(t1, ((eof + " = icmp slt i32 "@) + c) + ", 0"@);
    let t3 = text_line1(t2, (((cz + " = select i1 "@) + eof) + ", i32 0, i32 "@) + c);
    let t4 = text_line1(t3, ((b + " = trunc i32 "@) + cz) + " to i8"@);
    let t5 = text_line1(t4, p + " = load i8*, i8** %ptr"@);
    text_line1(t5, ((("store i8 "@ + b) + ", i8* "@) + p))
}

/// Text after one node.
pub open spec fn text_after_node(t: Seq<char>, n: Node, u: nat) -> Seq<char>
    decreases n, 1int,
{
    match n {
        Node::IncPtr => text_after_move(t, u, true),
        Node::DecPtr => text_after_move(t, u, false),
        Node::IncCell => text_after_add(t, u, true),
        Node::DecCell => text_after_add(t, u, false),
        Node::Output => text_after_output(t, u),
        Node::Input => text_after_input(t, u),
        Node::Loop(body) => text_after_loop(t, body@, u),
    }
}

/// Text after a loop: a uniquely labelled condition block that loads the
/// guard cell and branches, a body block that re-enters the condition, and
/// an end block for the continuation.
pub open spec fn text_after_loop(t: Seq<char>, body: Seq<Node>, u: nat) -> Seq<char>
    decreases body, 3int,
{
    let lcond = "loop.cond."@ + dec_digits(u);
    let lbody = "loop.body."@ + dec_digits(u);
    let lend = "loop.end."@ + dec_digits(u);
    let p = vname("p"@, u + 1);
    let v = vname("v"@, u + 2);
    let nz = vname("nz"@, u + 3);
    let t1 = text_line1(t, "br label %"@ + lcond);
    let t2 = text_label(t1, lcond);
    let t3 = text_line1(t2, p + " = load i8*, i8** %ptr"@);
    let t4 = text_line1(t3, (v + " = load i8, i8* "@) + p);
    let t5 = text_line1(t4, ((nz + " = icmp ne i8 "@) + v) + ", 0"@);
    let t6 = text_line1(
        t5,
        ((((("br i1 "@ + nz) + ", label %"@) + lbody) + ", label %"@) + lend),
    );
    let t7 = text_label(t6, lbody);
    let t8 = text_after_nodes(t7, body, u + 4);
    let t9 = text_line1(t8, "br label %"@ + lcond);
    text_label(t9, lend)
}

/// Text after a sequence of nodes, emitted left to right.
pub open spec fn text_after_nodes(t: Seq<char>, ns: Seq<Node>, u: nat) -> Seq<char>
    decreases ns, 2int,
{
    if ns.len() == 0 {
        t
    } else {
        text_after_nodes(
            text_after_node(t, ns[0], u),
            ns.subrange(1, ns.len() as int),
            uniq_after_node(ns[0], u),
        )
    }
}

/// Text after the preamble: the global tape, the two external I/O
/// declarations, and a blank separator line.
pub open spec fn text_preamble(t: Seq<char>) -> Seq<char> {
    t + "@tape = internal global [30000 x i8] zeroinitializer\n"@
        + "declare i32 @putchar(i32)\n"@ + "declare i32 @getchar()\n"@ + "\n"@
}

/// Text after the opening of the entry function: its first label and the
/// slot that holds the running tape pointer, initialized to the tape's
/// first cell.
pub open spec fn text_main_prelude(t: Seq<char>) -> Seq<char> {
    let t1 = t + "define i32 @main() {\n"@;
    let t2 = text_label(t1, "entry"@);
    let t3 = text_line1(t2, "%ptr = alloca i8*"@);
    let t4 = text_line1(
        t3,
        "%base = getelementptr [30000 x i8], [30000 x i8]* @tape, i64 0, i64 0"@,
    );
    text_line1(t4, "store i8* %base, i8** %ptr"@)
}

/// The whole IR program for the instruction sequence `ns`.
pub open spec fn ir_text(ns: Seq<Node>) -> Seq<char> {
    let t1 = text_preamble(Seq::empty());
    let t2 = text_main_prelude(t1);
    let t3 = text_after_nodes(t2, ns, 0);
    let t4 = text_line1(t3, "ret i32 0"@);
    t4 + "}\n"@
}

/// One decimal digit as text.
fn digit_str(d: u64) -> (r: &'static str)
    requires
        d < 10,
    ensures
        r@ == seq![digit_char(d as nat)],
{
    if d == 0 {
        proof {
            reveal_strlit("0");
            assert("0"@ =~= seq![digit_char(0)]);
        }
        "0"
    } else if d == 1 {
        proof {
            reveal_strlit("1");
            assert("1"@ =~= seq![digit_char(1)]);
        }
        "1"
    } else if d == 2 {
        proof {
            reveal_strlit("2");
            assert("2"@ =~= seq![digit_char(2)]);
        }
        "2"
    } else if d == 3 {
        proof {
            reveal_strlit("3");
            assert("3"@ =~= seq![digit_char(3)]);
        }
        "3"
    } else if d == 4 {
        proof {
            reveal_strlit("4");
            assert("4"@ =~= seq![digit_char(4)]);
        }
        "4"
    } else if d == 5 {
        proof {
            reveal_strlit("5");
            assert("5"@ =~= seq![digit_char(5)]);
        }
        "5"
    } else if d == 6 {
        proof {
            reveal_strlit("6");
            assert("6"@ =~= seq![digit_char(6)]);
        }
        "6"
    } else if d == 7 {
        proof {
            reveal_strlit("7");
            assert("7"@ =~= seq![digit_char(7)]);
        }
        "7"
    } else if d == 8 {
        proof {
            reveal_strlit("8");
            assert("8"@ =~= seq![digit_char(8)]);
        }
        "8"
    } else {
        proof {
            reveal_strlit("9");
            assert("9"@ =~= seq![digit_char(9)]);
        }
        "9"
    }
}

/// The decimal text of `n`.
fn dec_str(n: u64) -> (r: String)
    ensures
        r@ == dec_digits(n as nat),
    decreases n,
{
    if n < 10 {
        let r = String::from_str(digit_str(n));
        proof {
            assert(r@ =~= dec_digits(n as nat));
        }
        r
    } else {
        let mut r = dec_str(n / 10);
        r.append(digit_str(n % 10));
        proof {
            assert(r@ =~= dec_digits(n as nat));
        }
        r
    }
}

/// The single pass that builds the IR text: the output buffer, the current
/// indentation level, and the never-reused name counter.
pub struct Codegen {
    pub out: String,
    pub indent: usize,
    pub uniq: u64,
}

impl Codegen {
    /// An empty generation pass.
    pub fn new() -> (r: Codegen)
        ensures
            r.out@ == Seq::<char>::empty(),
            r.indent == 0,
            r.uniq == 0,
    {
        Codegen { out: String::new(), indent: 0, uniq: 0 }
    }

    /// Hands the finished text to the caller.
    pub fn finish(self) -> (r: String)
        ensures
            r@ == self.out@,
    {
        self.out
    }

    /// Emits the global tape declaration and the external I/O declarations.
    pub fn preamble(&mut self)
        ensures
            final(self).out@ == text_preamble(old(self).out@),
            final(self).indent == old(self).indent,
            final(self).uniq == old(self).uniq,
    {
        self.out.append("@tape = internal global [30000 x i8] zeroinitializer\n");
        self.out.append("declare i32 @putchar(i32)\n");
        self.out.append("declare i32 @getchar()\n");
        self.out.append("\n");
    }

    /// Opens the entry function and initializes the tape pointer slot.
    pub fn main_prelude(&mut self)
        ensures
            final(self).out@ == text_main_prelude(old(self).out@),
            final(self).indent == 1,
            final(self).uniq == old(self).uniq,
    {
        self.out.append("define i32 @main() {\n");
        self.indent = 1;
        self.label("entry");
        self.line("%ptr = alloca i8*");
        self.line("%base = getelementptr [30000 x i8], [30000 x i8]* @tape, i64 0, i64 0");
        self.line("store i8* %base, i8** %ptr");
        proof {
            reveal_with_fuel(ind, 2);
            assert(ind(1) =~= "  "@);
        }
    }

    /// Closes the entry function.
    pub fn end_main(&mut self)
        ensures
            final(self).out@ == old(self).out@ + "}\n"@,
            final(self).indent == 0,
            final(self).uniq == old(self).uniq,
    {
        self.indent = 0;
        self.out.append("}\n");
    }

    /// Emits one label line, never indented.
    pub fn label(&mut self, name: &str)
        ensures
            final(self).out@ == text_label(old(self).out@, name@),
            final(self).indent == old(self).indent,
            final(self).uniq == old(self).uniq,
    {
        self.out.append(name);
        self.out.append(":\n");
    }

    /// Emits one instruction line at the current indentation level.
    pub fn line(&mut self, s: &str)
        ensures
            final(self).out@ == old(self).out@ + ind(old(self).indent as nat) + s@ + "\n"@,
            final(self).indent == old(self).indent,
            final(self).uniq == old(self).uniq,
    {
        let mut k: usize = 0;
        proof {
            assert(self.out@ + ind(0) =~= self.out@);
        }
        while k < self.indent
            invariant
                k <= self.indent,
                self.indent == old(self).indent,
                self.uniq == old(self).uniq,
                self.out@ == old(self).out@ + ind(k as nat),
            decreases self.indent - k,
        {
            let ghost before = self.out@;
            self.out.append("  ");
            k = k + 1;
            proof {
                assert(before + "  "@ =~= old(self).out@ + ind(k as nat));
            }
        }
        self.out.append(s);
        self.out.append("\n");
    }

    /// A fresh intermediate value name: the sigil, the prefix, and the
    /// current counter value, which is then advanced and never reused.
    fn fresh(&mut self, prefix: &str) -> (r: String)
        requires
            old(self).uniq < u64::MAX,
        ensures
            r@ == vname(prefix@, old(self).uniq as nat),
            final(self).uniq == old(self).uniq + 1,
            final(self).out@ == old(self).out@,
            final(self).indent == old(self).indent,
    {
        let id = self.uniq;
        self.uniq = self.uniq + 1;
        let mut s = String::from_str("%");
        s.append(prefix);
        let d = dec_str(id);
        s.append(d.as_str());
        s
    }

    /// Emits the pointer move for a step of `delta` (one cell right or
    /// left).
    fn emit_move_ptr(&mut self, delta: i64)
        requires
            old(self).indent == 1,
            delta == 1 || delta == -1,
            old(self).uniq + 2 <= u64::MAX,
        ensures
            final(self).out@ == text_after_move(old(self).out@, old(self).uniq as nat, delta == 1),
            final(self).uniq == old(self).uniq + 2,
            final(self).indent == 1,
    {
        let p = self.fresh("p");
        let q = self.fresh("q");
        let mut l1 = p.clone();
        l1.append(" = load i8*, i8** %ptr");
        self.line(l1.as_str());
        let mut l2 = q.clone();
        l2.append(" = getelementptr i8, i8* ");
        l2.append(p.as_str());
        l2.append(", i64 ");
        l2.append(if delta == 1 { "1" } else { "-1" });
        self.line(l2.as_str());
        let mut l3 = String::from_str("store i8* ");
        l3.append(q.as_str());
        l3.append(", i8** %ptr");
        self.line(l3.as_str());
        proof {
            reveal_with_fuel(ind, 2);
            assert(ind(1) =~= "  "@);
        }
    }

    /// Emits the cell add or subtract for a step of `delta` (plus or minus
    /// one, with eight-bit wraparound in the emitted operation).
    fn emit_add_cell(&mut self, delta: i64)
        requires
            old(self).indent == 1,
            delta == 1 || delta == -1,
            old(self).uniq + 3 <= u64::MAX,
        ensures
            final(self).out@ == text_after_add(old(self).out@, old(self).uniq as nat, delta == 1),
            final(self).uniq == old(self).uniq + 3,
            final(self).indent == 1,
    {
        let p = self.fresh("p");
        let v0 = self.fresh("v");
        let v1 = self.fresh("v");
        let mut l1 = p.clone();
        l1.append(" = load i8*, i8** %ptr");
        self.line(l1.as_str());
        let mut l2 = v0.clone();
        l2.append(" = load i8, i8* ");
        l2.append(p.as_str());
        self.line(l2.as_str());
        let mut l3 = v1.clone();
        l3.append(if delta == 1 { " = add i8 " } else { " = sub i8 " });
        l3.append(v0.as_str());
        l3.append(", 1");
        self.line(l3.as_str());
        let mut l4 = String::from_str("store i8 ");
        l4.append(v1.as_str());
        l4.append(", i8* ");
        l4.append(p.as_str());
        self.line(l4.as_str());
        proof {
            reveal_with_fuel(ind, 2);
            assert(ind(1) =~= "  "@);
        }
    }

    /// Emits the output call: load the byte, widen it, call the output
    /// function.
    fn emit_output(&mut self)
        requires
            old(self).indent == 1,
            old(self).uniq + 3 <= u64::MAX,
        ensures
            final(self).out@ == text_after_output(old(self).out@, old(self).uniq as nat),
            final(self).uniq == old(self).uniq + 3,
            final(self).indent == 1,
    {
        let p = self.fresh("p");
        let v = self.fresh("v");
        let w = self.fresh("w");
        let mut l1 = p.clone();
        l1.append(" = load i8*, i8** %ptr");
        self.line(l1.as_str());
        let mut l2 = v.clone();
        l2.append(" = load i8, i8* ");
        l2.append(p.as_str());
        self.line(l2.as_str());
        let mut l3 = w.clone();
        l3.append(" = zext i8 ");
        l3.append(v.as_str());
        l3.append(" to i32");
        self.line(l3.as_str());
        let mut l4 = String::from_str("call i32 @putchar(i32 ");
        l4.append(w.as_str());
        l4.append(")");
        self.line(l4.as_str());
        proof {
            reveal_with_fuel(ind, 2);
            assert(ind(1) =~= "  "@);
        }
    }

    /// Emits the input call: read one value, map the end-of-stream
    /// sentinel to zero, narrow it, store it at the pointer.
    fn emit_input(&mut self)
        requires
            old(self).indent == 1,
            old(self).uniq + 5 <= u64::MAX,
        ensures
            final(self).out@ == text_after_input(old(self).out@, old(self).uniq as nat),
            final(self).uniq == old(self).uniq + 5,
            final(self).indent == 1,
    {
        let p = self.fresh("p");
        let c = self.fresh("c");
        let eof = self.fresh("eof");
        let cz = self.fresh("cz");
        let b = self.fresh("b");
        let mut l1 = c.clone();
        l1.append(" = call i32 @getchar()");
        self.line(l1.as_str());
        let mut l2 = eof.clone();
        l2.append(" = icmp slt i32 ");
        l2.append(c.as_str());
        l2.append(", 0");
        self.line(l2.as_str());
        let mut l3 = cz.clone();
        l3.append(" = select i1 ");
        l3.append(eof.as_str());
        l3.append(", i32 0, i32 ");
        l3.append(c.as_str());
        self.line(l3.as_str());
        let mut l4 = b.clone();
        l4.append(" = trunc i32 ");
        l4.append(cz.as_str());
        l4.append(" to i8");
        self.line(l4.as_str());
        let mut l5 = p.clone();
        l5.append(" = load i8*, i8** %ptr");
        self.line(l5.as_str());
        let mut l6 = String::from_str("store i8 ");
        l6.append(b.as_str());
        l6.append(", i8* ");
        l6.append(p.as_str());
        self.line(l6.as_str());
        proof {
            reveal_with_fuel(ind, 2);
            assert(ind(1) =~= "  "@);
        }
    }

    /// Emits the three labelled blocks of a loop and, inside the body
    /// block, the loop's own instruction sequence.
    fn emit_loop(&mut self, body: &Vec<Node>)
        requires
            old(self).indent == 1,
            uniq_after_nodes(body@, old(self).uniq as nat + 4) <= u64::MAX,
        ensures
            final(self).out@ == text_after_loop(old(self).out@, body@, old(self).uniq as nat),
            final(self).uniq as nat == uniq_after_nodes(body@, old(self).uniq as nat + 4),
            final(self).indent == 1,
        decreases body@, 3int,
    {
        proof {
            lemma_uniq_mono_nodes(body@, old(self).uniq as nat + 4);
        }
        let id = self.uniq;
        self.uniq = self.uniq + 1;

        let mut l_cond = String::from_str("loop.cond.");
        let d = dec_str(id);
        l_cond.append(d.as_str());
        let mut l_body = String::from_str("loop.body.");
        l_body.append(d.as_str());
        let mut l_end = String::from_str("loop.end.");
        l_end.append(d.as_str());

        let mut br0 = String::from_str("br label %");
        br0.append(l_cond.as_str());
        self.line(br0.as_str());
        self.label(l_cond.as_str());

        let p = self.fresh("p");
        let v = self.fresh("v");
        let nz = self.fresh("nz");
        self.indent = 1;
        let mut l1 = p.clone();
        l1.append(" = load i8*, i8** %ptr");
        self.line(l1.as_str());
        let mut l2 = v.clone();
        l2.append(" = load i8, i8* ");
        l2.append(p.as_str());
        self.line(l2.as_str());
        let mut l3 = nz.clone();
        l3.append(" = icmp ne i8 ");
        l3.append(v.as_str());
        l3.append(", 0");
        self.line(l3.as_str());
        let mut l4 = String::from_str("br i1 ");
        l4.append(nz.as_str());
        l4.append(", label %");
        l4.append(l_body.as_str());
        l4.append(", label %");
        l4.append(l_end.as_str());
        self.line(l4.as_str());

        self.label(l_body.as_str());
        self.indent = 1;
        self.emit_nodes(body);
        let mut br1 = String::from_str("br label %");
        br1.append(l_cond.as_str());
        self.line(br1.as_str());

        self.label(l_end.as_str());
        self.indent = 1;
        proof {
            reveal_with_fuel(ind, 2);
            assert(ind(1) =~= "  "@);
        }
    }

    /// Emits one node.
    fn emit_node(&mut self, n: &Node)
        requires
            old(self).indent == 1,
            uniq_after_node(*n, old(self).uniq as nat) <= u64::MAX,
        ensures
            final(self).out@ == text_after_node(old(self).out@, *n, old(self).uniq as nat),
            final(self).uniq as nat == uniq_after_node(*n, old(self).uniq as nat),
            final(self).indent == 1,
        decreases *n, 1int,
    {
        match n {
            Node::IncPtr => self.emit_move_ptr(1),
            Node::DecPtr => self.emit_move_ptr(-1),
            Node::IncCell => self.emit_add_cell(1),
            Node::DecCell => self.emit_add_cell(-1),
            Node::Output => self.emit_output(),
            Node::Input => self.emit_input(),
            Node::Loop(body) => self.emit_loop(body),
        }
    }

    /// Emits a sequence of nodes, left to right.
    pub fn emit_nodes(&mut self, nodes: &Vec<Node>)
        requires
            old(self).indent == 1,
            uniq_after_nodes(nodes@, old(self).uniq as nat) <= u64::MAX,
        ensures
            final(self).out@ == text_after_nodes(old(self).out@, nodes@, old(self).uniq as nat),
            final(self).uniq as nat == uniq_after_nodes(nodes@, old(self).uniq as nat),
            final(self).indent == 1,
        decreases nodes@, 2int,
    {
        let ghost out0 = old(self).out@;
        let ghost u0 = old(self).uniq as nat;
        let mut i: usize = 0;
        proof {
            assert(nodes@.skip(0) =~= nodes@);
        }
        while i < nodes.len()
            invariant
                self.indent == 1,
                i <= nodes@.len(),
                out0 == old(self).out@,
                u0 == old(self).uniq as nat,
                uniq_after_nodes(nodes@, u0) <= u64::MAX,
                uniq_after_nodes(nodes@, u0) == uniq_after_nodes(
                    nodes@.skip(i as int),
                    self.uniq as nat,
                ),
                text_after_nodes(out0, nodes@, u0) == text_after_nodes(
                    self.out@,
                    nodes@.skip(i as int),
                    self.uniq as nat,
                ),
            decreases nodes@.len() - i,
        {
            proof {
                assert(nodes@.skip(i as int).len() == nodes@.len() - i);
                assert(nodes@.skip(i as int)[0] == nodes@[i as int]);
                assert(nodes@.skip(i as int).subrange(
                    1,
                    nodes@.skip(i as int).len() as int,
                ) =~= nodes@.skip(i as int + 1));
                lemma_uniq_mono_nodes(
                    nodes@.skip(i as int + 1),
                    uniq_after_node(nodes@[i as int], self.uniq as nat),
                );
            }
            self.emit_node(&nodes[i]);
            i = i + 1;
        }
        proof {
            assert(nodes@.skip(nodes@.len() as int) =~= Seq::<Node>::empty());
        }
    }
}

/// Translates the instruction tree into the complete textual IR program:
/// the preamble, the entry function with one block structure per
/// instruction, and the closing return.
pub fn generate_ir(nodes: &Vec<Node>) -> (r: String)
    requires
        uniq_after_nodes(nodes@, 0) <= u64::MAX,
    ensures
        r@ == ir_text(nodes@),
{
    let mut cg = Codegen::new();
    cg.preamble();
    cg.main_prelude();
    cg.emit_nodes(nodes);
    cg.line("ret i32 0");
    cg.end_main();
    proof {
        reveal_with_fuel(ind, 2);
        assert(ind(1) =~= "  "@);
    }
    cg.finish()
}

} // verus!
