use vstd::prelude::*;

verus! {

/// A variable on the stack: its name, its type, the depth of the block it
/// was declared in, and its location (bytes from the bottom of the stack,
/// counting its own eight).
#[derive(Debug, PartialEq)]
pub struct Variable {
    pub m_name: String,
    pub m_type: String,
    pub m_scope_depth: usize,
    pub m_stack_loc: usize,
}

impl Variable {
    pub fn new(name: String, var_type: String, m_scope_depth: usize, m_stack_loc: usize) -> (r:
        Self)
        ensures
            r.m_name == name,
            r.m_type == var_type,
            r.m_scope_depth == m_scope_depth,
            r.m_stack_loc == m_stack_loc,
    {
        Variable { m_name: name, m_type: var_type, m_scope_depth, m_stack_loc }
    }
}

/// The variables on the stack, in the order they were declared, with the
/// stack's size in bytes and the depth of the current block.
pub struct StackHandler {
    pub m_variables: Vec<Variable>,
    pub m_stack_size: usize,
    pub m_scope_depth: usize,
}

/// The stack as values: variables as (name, type, depth, location).
pub struct StackView {
    pub vars: Seq<(Seq<char>, Seq<char>, nat, nat)>,
    pub size: nat,
    pub depth: nat,
}

pub open spec fn variable_view(v: Variable) -> (Seq<char>, Seq<char>, nat, nat) {
    (v.m_name@, v.m_type@, v.m_scope_depth as nat, v.m_stack_loc as nat)
}

impl View for StackHandler {
    type V = StackView;

    open spec fn view(&self) -> StackView {
        StackView {
            vars: self.m_variables@.map_values(|v: Variable| variable_view(v)),
            size: self.m_stack_size as nat,
            depth: self.m_scope_depth as nat,
        }
    }
}

/// Blocks are closed innermost first: depths never fall along the
/// declarations and never pass the current depth, and every location lies
/// within the stack.
pub open spec fn stack_wf(s: StackView) -> bool {
    &&& forall|i: int, j: int|
        0 <= i <= j < s.vars.len() ==> #[trigger] s.vars[i].2 <= #[trigger] s.vars[j].2
    &&& forall|i: int| 0 <= i < s.vars.len() ==> #[trigger] s.vars[i].2 <= s.depth
    &&& forall|i: int| 0 <= i < s.vars.len() ==> #[trigger] s.vars[i].3 <= s.size
}

/// Whether a variable of that name is on the stack.
pub open spec fn declared(vars: Seq<(Seq<char>, Seq<char>, nat, nat)>, name: Seq<char>) -> bool {
    exists|i: int| 0 <= i < vars.len() && #[trigger] vars[i].0 == name
}

/// The location of the variable of that name declared last.
pub open spec fn location_of(vars: Seq<(Seq<char>, Seq<char>, nat, nat)>, name: Seq<char>) -> nat
    decreases vars.len(),
{
    if vars.len() == 0 {
        0
    } else if vars.last().0 == name {
        vars.last().3
    } else {
        location_of(vars.drop_last(), name)
    }
}

/// The distance from the top of the stack to the variable of that name
/// declared last.
pub open spec fn offset_of(s: StackView, name: Seq<char>) -> int {
    s.size - location_of(s.vars, name)
}

/// The declarations made in blocks shallower than `depth`.
pub open spec fn below_depth(vars: Seq<(Seq<char>, Seq<char>, nat, nat)>, depth: nat) -> Seq<
    (Seq<char>, Seq<char>, nat, nat),
>
    decreases vars.len(),
{
    if vars.len() > 0 && vars.last().2 >= depth {
        below_depth(vars.drop_last(), depth)
    } else {
        vars
    }
}

/// The stack after declaring `name` of type `var_type` in the current block.
pub open spec fn after_add(s: StackView, name: Seq<char>, var_type: Seq<char>) -> StackView {
    StackView {
        vars: s.vars.push((name, var_type, s.depth, s.size + 8)),
        size: s.size + 8,
        depth: s.depth,
    }
}

pub open spec fn after_increase(s: StackView) -> StackView {
    StackView { depth: s.depth + 1, ..s }
}

/// The stack after the current block closes: its variables are gone.
pub open spec fn after_decrease(s: StackView) -> StackView {
    StackView { vars: below_depth(s.vars, s.depth), depth: (s.depth - 1) as nat, ..s }
}

proof fn lemma_location_bounded(s: StackView, name: Seq<char>)
    requires
        stack_wf(s),
    ensures
        location_of(s.vars, name) <= s.size,
    decreases s.vars.len(),
{
    if s.vars.len() > 0 && s.vars.last().0 != name {
        lemma_location_bounded(StackView { vars: s.vars.drop_last(), ..s }, name);
    }
}

proof fn lemma_below_depth(vars: Seq<(Seq<char>, Seq<char>, nat, nat)>, depth: nat)
    ensures
        below_depth(vars, depth).len() <= vars.len(),
        below_depth(vars, depth) == vars.take(below_depth(vars, depth).len() as int),
        below_depth(vars, depth).len() > 0 ==> below_depth(vars, depth).last().2 < depth,
    decreases vars.len(),
{
    if vars.len() > 0 && vars.last().2 >= depth {
        lemma_below_depth(vars.drop_last(), depth);
        let b = below_depth(vars.drop_last(), depth);
        assert(vars.drop_last().take(b.len() as int) =~= vars.take(b.len() as int));
    } else {
        assert(vars.take(vars.len() as int) =~= vars);
    }
}

impl StackHandler {
    pub fn new() -> (r: Self)
        ensures
            r@.vars == Seq::<(Seq<char>, Seq<char>, nat, nat)>::empty(),
            r@.size == 0,
            r@.depth == 0,
            stack_wf(r@),
    {
        StackHandler { m_variables: Vec::new(), m_stack_size: 0, m_scope_depth: 0 }
    }

    /// Declares `name` of type `var_type` in the current block, in eight
    /// more bytes of stack.
    pub fn add_variable(&mut self, name: String, var_type: String)
        requires
            stack_wf(old(self)@),
            old(self).m_stack_size + 8 <= usize::MAX,
        ensures
            final(self)@ == after_add(old(self)@, name@, var_type@),
            stack_wf(final(self)@),
    {
        self.m_stack_size = self.m_stack_size + 8;
        let variable = Variable::new(name, var_type, self.m_scope_depth, self.m_stack_size);
        self.m_variables.push(variable);
        assert(self@.vars =~= old(self)@.vars.push(variable_view(variable)));
    }

    /// The distance from the top of the stack to the variable `name`
    /// declared last; there must be one.
    pub fn get_offset(&mut self, name: String) -> (r: usize)
        requires
            stack_wf(old(self)@),
            declared(old(self)@.vars, name@),
        ensures
            r == offset_of(old(self)@, name@),
            final(self)@ == old(self)@,
    {
        let ghost s = self@;
        let mut i: usize = self.m_variables.len();
        assert(s.vars.take(i as int) =~= s.vars);
        while i > 0
            invariant
                i <= self.m_variables.len(),
                s == self@,
                stack_wf(s),
                declared(s.vars, name@),
                location_of(s.vars, name@) == location_of(s.vars.take(i as int), name@),
                forall|j: int| i <= j < s.vars.len() ==> s.vars[j].0 != name@,
            decreases i,
        {
            let ghost pre = s.vars.take(i as int);
            assert(pre.drop_last() =~= s.vars.take(i - 1));
            if self.m_variables[i - 1].m_name == name {
                let loc = self.m_variables[i - 1].m_stack_loc;
                assert(loc <= self.m_stack_size);
                return self.m_stack_size - loc;
            }
            i = i - 1;
        }
        proof {
            let j = choose|j: int| 0 <= j < s.vars.len() && #[trigger] s.vars[j].0 == name@;
            assert(s.vars[j].0 == name@);
        }
        0
    }

    pub fn increase_scope_depth(&mut self)
        requires
            stack_wf(old(self)@),
            old(self).m_scope_depth < usize::MAX,
        ensures
            final(self)@ == after_increase(old(self)@),
            stack_wf(final(self)@),
    {
        self.m_scope_depth = self.m_scope_depth + 1;
        assert forall|i: int| 0 <= i < self@.vars.len() implies #[trigger] self@.vars[i].2
            <= self@.depth by {
            assert(old(self)@.vars[i].2 <= old(self)@.depth);
        }
    }

    /// Closes the current block: its variables leave the stack's table.
    pub fn decrease_scope_depth(&mut self)
        requires
            stack_wf(old(self)@),
            old(self).m_scope_depth > 0,
        ensures
            final(self)@ == after_decrease(old(self)@),
            stack_wf(final(self)@),
    {
        self.pop_scope_variables();
        self.m_scope_depth = self.m_scope_depth - 1;
        proof {
            let b = below_depth(old(self)@.vars, old(self)@.depth);
            lemma_below_depth(old(self)@.vars, old(self)@.depth);
            assert forall|i: int| 0 <= i < b.len() implies #[trigger] b[i].2 <= self@.depth by {
                assert(b[i].2 <= b.last().2);
            }
        }
    }

    /// Drops the variables declared in the current block.
    fn pop_scope_variables(&mut self)
        requires
            stack_wf(old(self)@),
        ensures
            final(self)@.vars == below_depth(old(self)@.vars, old(self)@.depth),
            final(self)@.size == old(self)@.size,
            final(self)@.depth == old(self)@.depth,
    {
        let ghost goal = below_depth(self@.vars, self@.depth);
        while self.m_variables.len() > 0 && self.m_variables[self.m_variables.len() - 1].m_scope_depth
            == self.m_scope_depth
            invariant
                below_depth(self@.vars, self@.depth) == goal,
                goal == below_depth(old(self)@.vars, old(self)@.depth),
                self@.size == old(self)@.size,
                self@.depth == old(self)@.depth,
                stack_wf(self@),
            decreases self.m_variables.len(),
        {
            let ghost before = self@.vars;
            self.m_variables.pop();
            assert(self@.vars =~= before.drop_last());
        }
        proof {
            if self@.vars.len() > 0 {
                assert(self@.vars.last().2 <= self@.depth);
            }
        }
    }
}

/// Right after a declaration, its variable is on top of the stack.
pub proof fn lemma_offset_after_add(s: StackView, name: Seq<char>, var_type: Seq<char>)
    ensures
        offset_of(after_add(s, name, var_type), name) == 0,
        declared(after_add(s, name, var_type).vars, name),
{
    let t = after_add(s, name, var_type);
    assert(t.vars[t.vars.len() - 1].0 == name);
}

/// Closing a block that was just opened gives back the stack as it was.
pub proof fn lemma_decrease_undoes_increase(s: StackView)
    requires
        stack_wf(s),
    ensures
        after_decrease(after_increase(s)) == s,
{
    let t = after_increase(s);
    if s.vars.len() > 0 {
        assert(s.vars.last().2 <= s.depth);
    }
    assert(below_depth(t.vars, t.depth) == s.vars);
}

/// A block's declarations are forgotten when it closes: the entries and the
/// depth are those from before the block was opened, so every name resolves
/// to the location it had then, however many variables the block declared;
/// the stack keeps the eight bytes of each of them.
pub proof fn lemma_block_declarations_vanish(
    s: StackView,
    decls: Seq<(Seq<char>, Seq<char>)>,
    name: Seq<char>,
)
    requires
        stack_wf(s),
    ensures
        after_decrease(declare_all(after_increase(s), decls)).vars == s.vars,
        after_decrease(declare_all(after_increase(s), decls)).depth == s.depth,
        after_decrease(declare_all(after_increase(s), decls)).size == s.size + 8 * decls.len(),
        location_of(after_decrease(declare_all(after_increase(s), decls)).vars, name)
            == location_of(s.vars, name),
{
    lemma_declare_all(after_increase(s), decls);
    let t = declare_all(after_increase(s), decls);
    lemma_below_depth_drops_block(s.vars, decls.len(), t.vars, s.depth + 1);
}

/// The stack after declaring each (name, type) pair in order.
pub open spec fn declare_all(s: StackView, decls: Seq<(Seq<char>, Seq<char>)>) -> StackView
    decreases decls.len(),
{
    if decls.len() == 0 {
        s
    } else {
        let t = declare_all(s, decls.drop_last());
        after_add(t, decls.last().0, decls.last().1)
    }
}

proof fn lemma_declare_all(s: StackView, decls: Seq<(Seq<char>, Seq<char>)>)
    ensures
        declare_all(s, decls).vars.len() == s.vars.len() + decls.len(),
        declare_all(s, decls).vars.take(s.vars.len() as int) == s.vars,
        declare_all(s, decls).depth == s.depth,
        declare_all(s, decls).size == s.size + 8 * decls.len(),
        forall|i: int|
            s.vars.len() <= i < declare_all(s, decls).vars.len() ==> #[trigger] declare_all(
                s,
                decls,
            ).vars[i].2 == s.depth,
    decreases decls.len(),
{
    if decls.len() > 0 {
        lemma_declare_all(s, decls.drop_last());
        let t = declare_all(s, decls.drop_last());
        assert(declare_all(s, decls).vars.take(s.vars.len() as int) =~= t.vars.take(
            s.vars.len() as int,
        ));
    } else {
        assert(s.vars.take(s.vars.len() as int) =~= s.vars);
    }
}

proof fn lemma_below_depth_drops_block(
    outer: Seq<(Seq<char>, Seq<char>, nat, nat)>,
    n: nat,
    all: Seq<(Seq<char>, Seq<char>, nat, nat)>,
    depth: nat,
)
    requires
        all.len() == outer.len() + n,
        all.take(outer.len() as int) == outer,
        forall|i: int| outer.len() <= i < all.len() ==> #[trigger] all[i].2 == depth,
        forall|i: int| 0 <= i < outer.len() ==> #[trigger] outer[i].2 < depth,
    ensures
        below_depth(all, depth) == outer,
    decreases n,
{
    if n == 0 {
        assert(all =~= outer);
        if outer.len() > 0 {
            assert(outer[outer.len() - 1].2 < depth);
        }
    } else {
        assert(all.drop_last().take(outer.len() as int) =~= outer);
        lemma_below_depth_drops_block(outer, (n - 1) as nat, all.drop_last(), depth);
    }
}

/// An operation on the stack: a declaration, or a block that opens or closes.
pub enum StackOp {
    Add { name: Seq<char>, var_type: Seq<char> },
    Increase,
    Decrease,
}

/// The stack after the operations, in order.
pub open spec fn run_ops(s: StackView, ops: Seq<StackOp>) -> StackView
    decreases ops.len(),
{
    if ops.len() == 0 {
        s
    } else {
        let t = run_ops(s, ops.drop_last());
        match ops.last() {
            StackOp::Add { name, var_type } => after_add(t, name, var_type),
            StackOp::Increase => after_increase(t),
            StackOp::Decrease => after_decrease(t),
        }
    }
}

/// The declarations that the operations make, in order, each as (name,
/// type, depth of its block).
pub open spec fn declarations(s: StackView, ops: Seq<StackOp>) -> Seq<(Seq<char>, Seq<char>, nat)>
    decreases ops.len(),
{
    if ops.len() == 0 {
        Seq::empty()
    } else {
        let d = declarations(s, ops.drop_last());
        match ops.last() {
            StackOp::Add { name, var_type } => d.push(
                (name, var_type, run_ops(s, ops.drop_last()).depth),
            ),
            _ => d,
        }
    }
}

/// The entry that the `k`-th declaration (counting from one) puts on the
/// stack: its location is `8 * k` bytes from the bottom.
pub open spec fn binding(d: Seq<(Seq<char>, Seq<char>, nat)>, k: int) -> (
    Seq<char>,
    Seq<char>,
    nat,
    nat,
) {
    (d[k - 1].0, d[k - 1].1, d[k - 1].2, (8 * k) as nat)
}

/// `e` is the entry that one of the declarations in `d` put on the stack.
pub open spec fn made_by_declaration(
    e: (Seq<char>, Seq<char>, nat, nat),
    d: Seq<(Seq<char>, Seq<char>, nat)>,
) -> bool {
    exists|k: int| 1 <= k <= d.len() && e == #[trigger] binding(d, k)
}

/// The stack a handler starts with.
pub open spec fn empty_stack() -> StackView {
    StackView { vars: Seq::empty(), size: 0, depth: 0 }
}

/// `i` is the last entry of that name.
pub open spec fn last_binding(vars: Seq<(Seq<char>, Seq<char>, nat, nat)>, name: Seq<char>, i: int) -> bool {
    &&& 0 <= i < vars.len()
    &&& vars[i].0 == name
    &&& forall|j: int| i < j < vars.len() ==> vars[j].0 != name
}

proof fn lemma_location_of_last(vars: Seq<(Seq<char>, Seq<char>, nat, nat)>, name: Seq<char>, i: int)
    requires
        last_binding(vars, name, i),
    ensures
        location_of(vars, name) == vars[i].3,
    decreases vars.len(),
{
    if i < vars.len() - 1 {
        assert(vars.last().0 != name);
        assert(last_binding(vars.drop_last(), name, i));
        lemma_location_of_last(vars.drop_last(), name, i);
    }
}

proof fn lemma_run_ops_bindings(ops: Seq<StackOp>)
    ensures
        run_ops(empty_stack(), ops).size == 8 * declarations(empty_stack(), ops).len(),
        forall|i: int|
            0 <= i < run_ops(empty_stack(), ops).vars.len() ==> made_by_declaration(
                #[trigger] run_ops(empty_stack(), ops).vars[i],
                declarations(empty_stack(), ops),
            ),
    decreases ops.len(),
{
    if ops.len() > 0 {
        let pre = ops.drop_last();
        lemma_run_ops_bindings(pre);
        let t = run_ops(empty_stack(), pre);
        let d = declarations(empty_stack(), pre);
        let s = run_ops(empty_stack(), ops);
        let d2 = declarations(empty_stack(), ops);
        match ops.last() {
            StackOp::Add { name, var_type } => {
                assert forall|i: int| 0 <= i < s.vars.len() implies made_by_declaration(
                    #[trigger] s.vars[i],
                    d2,
                ) by {
                    if i < t.vars.len() {
                        assert(made_by_declaration(t.vars[i], d));
                        let k = choose|k: int| 1 <= k <= d.len() && t.vars[i] == #[trigger] binding(d, k);
                        assert(s.vars[i] == t.vars[i]);
                        assert(d2[k - 1] == d[k - 1]);
                        assert(s.vars[i] == binding(d2, k));
                    } else {
                        assert(s.vars[i] == binding(d2, d2.len() as int));
                    }
                }
            },
            StackOp::Increase => {
            },
            StackOp::Decrease => {
                lemma_below_depth(t.vars, t.depth);
                assert forall|i: int| 0 <= i < s.vars.len() implies made_by_declaration(
                    #[trigger] s.vars[i],
                    d2,
                ) by {
                    assert(s.vars[i] == t.vars[i]);
                    assert(made_by_declaration(t.vars[i], d));
                }
            },
        }
    }
}

/// Offsets count declarations: from a fresh handler, after any sequence of
/// declarations and blocks that open and close, the stack holds eight bytes
/// per declaration made, each entry still on it is the one that the `k`-th
/// declaration made, at `8 * k` bytes, and the offset of a name is eight
/// bytes for each declaration made after the last entry of that name.
pub proof fn lemma_offsets_count_declarations(ops: Seq<StackOp>, name: Seq<char>)
    ensures
        run_ops(empty_stack(), ops).size == 8 * declarations(empty_stack(), ops).len(),
        forall|i: int|
            0 <= i < run_ops(empty_stack(), ops).vars.len() ==> made_by_declaration(
                #[trigger] run_ops(empty_stack(), ops).vars[i],
                declarations(empty_stack(), ops),
            ),
        forall|i: int|
            #[trigger] last_binding(run_ops(empty_stack(), ops).vars, name, i) ==> exists|k: int|
                1 <= k <= declarations(empty_stack(), ops).len() && run_ops(
                    empty_stack(),
                    ops,
                ).vars[i] == binding(declarations(empty_stack(), ops), k) && offset_of(
                    run_ops(empty_stack(), ops),
                    name,
                ) == 8 * (declarations(empty_stack(), ops).len() - k),
{
    lemma_run_ops_bindings(ops);
    let s = run_ops(empty_stack(), ops);
    let d = declarations(empty_stack(), ops);
    assert forall|i: int| #[trigger] last_binding(s.vars, name, i) implies exists|k: int|
        1 <= k <= d.len() && s.vars[i] == binding(d, k) && offset_of(s, name) == 8 * (d.len()
            - k) by {
        lemma_location_of_last(s.vars, name, i);
        assert(made_by_declaration(s.vars[i], d));
        let k = choose|k: int| 1 <= k <= d.len() && s.vars[i] == #[trigger] binding(d, k);
        assert(s.vars[i] == binding(d, k));
    }
}

} // verus!
