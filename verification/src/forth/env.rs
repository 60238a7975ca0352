//! The environment of the word interpreter: its stack, its dictionary of
//! defined words, and its variables and constants.

use crate::forth::cell::Name;
use crate::forth::table::{table_del, table_get, table_put, Table};
use crate::forth::text::{
    append_separated, decimal_text, decimal_texts, int_to_string, ints_text, join, join3, list_text,
    quoted, quoted_text, quoted_texts, separated, words_text,
};
use vstd::prelude::*;

verus! {

/// What the interpreter returns: a value, or a message.
pub type ForthResult<T> = Result<T, String>;

/// A defined word: its name and the words it stands for.
pub type ForthFunc = (String, Vec<String>);

/// The value of a variable.
#[derive(Debug, PartialEq, Eq)]
pub enum ForthVar {
    Var(i32),
    Array(Vec<i32>),
}

/// The value of a variable as specifications see it.
pub enum ForthVarView {
    Var(i32),
    Array(Seq<i32>),
}

impl DeepView for ForthVar {
    type V = ForthVarView;

    open spec fn deep_view(&self) -> ForthVarView {
        match *self {
            ForthVar::Var(n) => ForthVarView::Var(n),
            ForthVar::Array(v) => ForthVarView::Array(v@),
        }
    }
}

impl Clone for ForthVar {
    fn clone(&self) -> (r: Self)
        ensures
            r.deep_view() == self.deep_view(),
    {
        match self {
            ForthVar::Var(n) => ForthVar::Var(*n),
            ForthVar::Array(v) => ForthVar::Array(copy_ints(v)),
        }
    }
}

/// A copy of a vector of integers.
pub fn copy_ints(v: &Vec<i32>) -> (r: Vec<i32>)
    ensures
        r@ == v@,
{
    let mut r: Vec<i32> = Vec::new();
    let mut i: usize = 0;
    while i < v.len()
        invariant
            i <= v.len(),
            r@ == v@.take(i as int),
        decreases v.len() - i,
    {
        r.push(v[i]);
        assert(v@.take(i as int + 1) =~= v@.take(i as int).push(v@[i as int]));
        i += 1;
    }
    assert(v@.take(v@.len() as int) =~= v@);
    r
}

/// A copy of a vector of words.
pub fn copy_words(v: &Vec<String>) -> (r: Vec<String>)
    ensures
        r.deep_view() == v.deep_view(),
        r@ == v@,
{
    let mut r: Vec<String> = Vec::new();
    let mut i: usize = 0;
    while i < v.len()
        invariant
            i <= v.len(),
            r@ == v@.take(i as int),
        decreases v.len() - i,
    {
        r.push(v[i].clone());
        assert(v@.take(i as int + 1) =~= v@.take(i as int).push(v@[i as int]));
        i += 1;
    }
    assert(v@.take(v@.len() as int) =~= v@);
    assert(r.deep_view() =~= v.deep_view());
    r
}

/// A reference to a variable, or to a slot of an array.
#[derive(Debug, PartialEq, Eq, Hash)]
pub enum VarRef {
    Var(String),
    Array(String, i32),
}

/// A reference as specifications see it.
pub enum VarRefView {
    Var(Name),
    Array(Name, i32),
}

impl DeepView for VarRef {
    type V = VarRefView;

    open spec fn deep_view(&self) -> VarRefView {
        match *self {
            VarRef::Var(n) => VarRefView::Var(n@),
            VarRef::Array(n, i) => VarRefView::Array(n@, i),
        }
    }
}

impl Clone for VarRef {
    fn clone(&self) -> (r: Self)
        ensures
            r == *self,
    {
        match self {
            VarRef::Var(n) => VarRef::Var(n.clone()),
            VarRef::Array(n, i) => VarRef::Array(n.clone(), *i),
        }
    }
}

/// The environment.
pub struct ForthEnv {
    pub stack: Vec<i32>,
    pub funcs: Table<ForthFunc>,
    pub vars: Table<ForthVar>,
    pub var_refs: Vec<VarRef>,
    pub constants: Table<i32>,
    pub specials: Table<i32>,
    /// What the interpreter has written.
    pub output: String,
}

/// The environment as specifications see it.
pub struct ForthEnvView {
    pub stack: Seq<i32>,
    pub funcs: Seq<(Name, (Name, Seq<Name>))>,
    pub vars: Seq<(Name, ForthVarView)>,
    pub var_refs: Seq<VarRefView>,
    pub constants: Seq<(Name, i32)>,
    pub specials: Seq<(Name, i32)>,
    pub output: Seq<char>,
}

impl View for ForthEnv {
    type V = ForthEnvView;

    open spec fn view(&self) -> ForthEnvView {
        ForthEnvView {
            stack: self.stack@,
            funcs: self.funcs.listed(),
            vars: self.vars.listed(),
            var_refs: self.var_refs.deep_view(),
            constants: self.constants.listed(),
            specials: self.specials.listed(),
            output: self.output@,
        }
    }
}

/// The message of [`ForthEnv::array_set`] for a position outside the array.
pub open spec fn out_of_range_text(pos: i32, len: int) -> Seq<char> {
    "Cannot set at position: "@ + decimal_text(pos as int) + " when array length is: "@
        + decimal_text(len)
}

/// What [`ForthEnv::array_set`] does to the variables, and the message of
/// its error.
pub open spec fn array_set_spec(
    vars: Seq<(Name, ForthVarView)>,
    name: Name,
    pos: i32,
    value: i32,
) -> Result<Seq<(Name, ForthVarView)>, Seq<char>> {
    match table_get(vars, name) {
        None => Err("No such array variable: "@ + name),
        Some(ForthVarView::Var(_)) => Err("Variable "@ + name + " is not an array!"@),
        Some(ForthVarView::Array(items)) => if 0 <= pos < items.len() {
            Ok(table_put(vars, name, ForthVarView::Array(items.update(pos as int, value))))
        } else {
            Err(out_of_range_text(pos, items.len() as int))
        },
    }
}

/// A defined word as it is written for debugging.
pub open spec fn func_text(f: (Name, Seq<Name>)) -> Seq<char> {
    "("@ + quoted_text(f.0) + ", "@ + list_text(quoted_texts(f.1)) + ")"@
}

/// The value of a variable as it is written for debugging.
pub open spec fn var_text(v: ForthVarView) -> Seq<char> {
    match v {
        ForthVarView::Var(n) => "Var("@ + decimal_text(n as int) + ")"@,
        ForthVarView::Array(items) => "Array("@ + list_text(decimal_texts(items)) + ")"@,
    }
}

/// The entries of the dictionary as they are written for debugging, each as
/// its quoted name, a colon, and the word.
pub open spec fn func_entries(funcs: Seq<(Name, (Name, Seq<Name>))>) -> Seq<Seq<char>> {
    funcs.map_values(|e: (Name, (Name, Seq<Name>))| quoted_text(e.0) + ": "@ + func_text(e.1))
}

/// The entries of the variables as they are written for debugging.
pub open spec fn var_entries(vars: Seq<(Name, ForthVarView)>) -> Seq<Seq<char>> {
    vars.map_values(|e: (Name, ForthVarView)| quoted_text(e.0) + ": "@ + var_text(e.1))
}

/// A table as it is written for debugging: the entries in braces, in the
/// order in which their names came.
pub open spec fn table_text(entries: Seq<Seq<char>>) -> Seq<char> {
    "{"@ + separated(entries) + "}"@
}

/// The environment after `text` was written.
pub open spec fn written(s: ForthEnvView, text: Seq<char>) -> ForthEnvView {
    ForthEnvView { output: s.output + text, ..s }
}

/// A defined word as it is written for debugging; see [`func_text`].
pub fn func_to_text(f: &ForthFunc) -> (r: String)
    ensures
        r@ == func_text(f.deep_view()),
{
    let name = quoted(f.0.as_str());
    let words = words_text(&f.1);
    let head = join3("(", name.as_str(), ", ");
    join3(head.as_str(), words.as_str(), ")")
}

/// The value of a variable as it is written for debugging; see
/// [`var_text`].
pub fn var_to_text(v: &ForthVar) -> (r: String)
    ensures
        r@ == var_text(v.deep_view()),
{
    match v {
        ForthVar::Var(n) => {
            let text = int_to_string(*n as i128);
            join3("Var(", text.as_str(), ")")
        },
        ForthVar::Array(items) => {
            let text = ints_text(items);
            join3("Array(", text.as_str(), ")")
        },
    }
}

impl ForthEnv {
    /// No name occurs twice in any table.
    pub open spec fn wf(&self) -> bool {
        &&& self.funcs.wf()
        &&& self.vars.wf()
        &&& self.constants.wf()
        &&& self.specials.wf()
    }

    /// The environment with nothing in it.
    pub fn empty() -> (env: ForthEnv)
        ensures
            env.wf(),
            env@ == (ForthEnvView {
                stack: Seq::empty(),
                funcs: Seq::empty(),
                vars: Seq::empty(),
                var_refs: Seq::empty(),
                constants: Seq::empty(),
                specials: Seq::empty(),
                output: Seq::empty(),
            }),
    {
        let env = ForthEnv {
            stack: Vec::new(),
            funcs: Table::new(),
            vars: Table::new(),
            var_refs: Vec::new(),
            constants: Table::new(),
            specials: Table::new(),
            output: String::new(),
        };
        proof {
            assert(env@.var_refs =~= Seq::empty());
        }
        env
    }

    /// The reference on top of the references.
    pub fn top_variable_ref(&mut self) -> (r: Option<VarRef>)
        ensures
            *final(self) == *old(self),
            match r {
                Some(v) => old(self)@.var_refs.len() > 0 && v.deep_view() == old(self)@.var_refs.last(),
                None => old(self)@.var_refs.len() == 0,
            },
    {
        if self.var_refs.len() == 0 {
            None
        } else {
            let var = self.var_refs[self.var_refs.len() - 1].clone();
            Some(var)
        }
    }

    /// Takes the top reference off.
    pub fn pop_variable_ref(&mut self) -> (r: Option<VarRef>)
        ensures
            final(self).wf() == old(self).wf(),
            match r {
                Some(v) => {
                    &&& old(self)@.var_refs.len() > 0
                    &&& v.deep_view() == old(self)@.var_refs.last()
                    &&& final(self)@ == (ForthEnvView {
                        var_refs: old(self)@.var_refs.drop_last(),
                        ..old(self)@
                    })
                },
                None => old(self)@.var_refs.len() == 0 && final(self)@ == old(self)@,
            },
    {
        let ghost before = self.var_refs;
        let r = self.var_refs.pop();
        proof {
            if before@.len() > 0 {
                assert(self.var_refs.deep_view() =~= before.deep_view().drop_last());
            } else {
                assert(self.var_refs.deep_view() =~= before.deep_view());
            }
        }
        r
    }

    /// Puts a reference on top of the references.
    pub fn push_variable_ref(&mut self, var: VarRef)
        ensures
            final(self).wf() == old(self).wf(),
            final(self)@ == (ForthEnvView {
                var_refs: old(self)@.var_refs.push(var.deep_view()),
                ..old(self)@
            }),
    {
        let ghost before = self.var_refs;
        self.var_refs.push(var);
        proof {
            assert(self.var_refs.deep_view() =~= before.deep_view().push(var.deep_view()));
        }
    }

    /// The value of the variable `name`.
    pub fn get_variable(&self, name: &str) -> (r: Option<ForthVar>)
        ensures
            match r {
                Some(v) => table_get(self@.vars, name@) == Some(v.deep_view()),
                None => table_get(self@.vars, name@) is None,
            },
    {
        match self.vars.get(name) {
            Some(v) => Some(v.clone()),
            None => None,
        }
    }

    /// Gives the variable `name` a value. Returns the value that it had.
    pub fn add_variable(&mut self, name: &str, value: ForthVar) -> (r: Option<ForthVar>)
        requires
            old(self).wf(),
        ensures
            final(self).wf(),
            final(self)@ == (ForthEnvView {
                vars: table_put(old(self)@.vars, name@, value.deep_view()),
                ..old(self)@
            }),
            match r {
                Some(v) => table_get(old(self)@.vars, name@) == Some(v.deep_view()),
                None => table_get(old(self)@.vars, name@) is None,
            },
    {
        self.vars.insert(name.to_owned(), value)
    }

    /// The value of the constant `name`.
    pub fn get_constant(&self, name: &str) -> (r: Option<i32>)
        ensures
            r == table_get(self@.constants, name@),
    {
        match self.constants.get(name) {
            Some(v) => Some(*v),
            None => None,
        }
    }

    /// Gives the constant `name` a value. Returns the value that it had.
    pub fn add_constant(&mut self, name: &str, value: i32) -> (r: Option<i32>)
        requires
            old(self).wf(),
        ensures
            final(self).wf(),
            final(self)@ == (ForthEnvView {
                constants: table_put(old(self)@.constants, name@, value),
                ..old(self)@
            }),
            r == table_get(old(self)@.constants, name@),
    {
        self.constants.insert(name.to_owned(), value)
    }

    /// The defined word `name`.
    pub fn get_function(&self, name: &str) -> (r: Option<ForthFunc>)
        ensures
            match r {
                Some(f) => table_get(self@.funcs, name@) == Some(f.deep_view()),
                None => table_get(self@.funcs, name@) is None,
            },
    {
        match self.funcs.get(name) {
            Some(func) => Some((func.0.clone(), copy_words(&func.1))),
            None => None,
        }
    }

    /// Defines the word `name`. Returns what it stood for before.
    pub fn add_function(&mut self, name: &str, func: ForthFunc) -> (r: Option<ForthFunc>)
        requires
            old(self).wf(),
        ensures
            final(self).wf(),
            final(self)@ == (ForthEnvView {
                funcs: table_put(old(self)@.funcs, name@, func.deep_view()),
                ..old(self)@
            }),
            match r {
                Some(f) => table_get(old(self)@.funcs, name@) == Some(f.deep_view()),
                None => table_get(old(self)@.funcs, name@) is None,
            },
    {
        self.funcs.insert(name.to_owned(), func)
    }

    /// Takes the top number off the stack; the message when the stack is
    /// empty.
    pub fn pop(&mut self, msg: String) -> (r: ForthResult<i32>)
        ensures
            final(self).wf() == old(self).wf(),
            match r {
                Ok(n) => {
                    &&& old(self)@.stack.len() > 0
                    &&& n == old(self)@.stack.last()
                    &&& final(self)@ == (ForthEnvView {
                        stack: old(self)@.stack.drop_last(),
                        ..old(self)@
                    })
                },
                Err(m) => old(self)@.stack.len() == 0 && m == msg && final(self)@ == old(self)@,
            },
    {
        match self.stack.pop() {
            Some(n) => Ok(n),
            None => Err(msg),
        }
    }

    /// The top number of the stack; the message when the stack is empty.
    pub fn top(&mut self, msg: String) -> (r: ForthResult<i32>)
        ensures
            *final(self) == *old(self),
            match r {
                Ok(n) => old(self)@.stack.len() > 0 && n == old(self)@.stack.last(),
                Err(m) => old(self)@.stack.len() == 0 && m == msg,
            },
    {
        let n = self.stack.len();
        if n == 0 {
            Err(msg)
        } else {
            Ok(self.stack[n - 1])
        }
    }

    /// Puts a number on the stack.
    pub fn push(&mut self, val: i32)
        ensures
            final(self).wf() == old(self).wf(),
            final(self)@ == (ForthEnvView { stack: old(self)@.stack.push(val), ..old(self)@ }),
    {
        self.stack.push(val);
    }

    /// Writes `text`.
    pub fn write(&mut self, text: &str)
        ensures
            final(self).wf() == old(self).wf(),
            final(self)@ == written(old(self)@, text@),
    {
        vstd::string::StringExecFns::append(&mut self.output, text);
    }

    /// Takes what was written so far, and leaves nothing written.
    pub fn take_output(&mut self) -> (r: String)
        ensures
            final(self).wf() == old(self).wf(),
            r@ == old(self)@.output,
            final(self)@ == (ForthEnvView { output: Seq::empty(), ..old(self)@ }),
    {
        let mut out = String::new();
        core::mem::swap(&mut self.output, &mut out);
        out
    }

    /// Writes the stack, as a list of numbers on a line.
    pub fn print_stack(&mut self)
        ensures
            final(self).wf() == old(self).wf(),
            final(self)@ == written(
                old(self)@,
                list_text(decimal_texts(old(self)@.stack)) + "\n"@,
            ),
    {
        let text = ints_text(&self.stack);
        let line = join(text.as_str(), "\n");
        self.write(line.as_str());
    }

    /// Writes the dictionary on a line.
    pub fn print_func(&mut self)
        ensures
            final(self).wf() == old(self).wf(),
            final(self)@ == written(
                old(self)@,
                table_text(func_entries(old(self)@.funcs)) + "\n"@,
            ),
    {
        let mut text = "{".to_owned();
        let ghost entries = func_entries(self@.funcs);
        let mut i: usize = 0;
        assert(separated(entries.take(0)) =~= Seq::<char>::empty());
        assert("{"@ + Seq::<char>::empty() =~= "{"@);
        while i < self.funcs.entries.len()
            invariant
                i <= self.funcs.entries.len(),
                entries == func_entries(self@.funcs),
                entries.len() == self.funcs.entries.len(),
                text@ == "{"@ + separated(entries.take(i as int)),
            decreases self.funcs.entries.len() - i,
        {
            let name = quoted(self.funcs.entries[i].0.as_str());
            let word = func_to_text(&self.funcs.entries[i].1);
            let item = join3(name.as_str(), ": ", word.as_str());
            proof {
                let now = entries.take(i as int + 1);
                assert(now.drop_last() =~= entries.take(i as int));
                assert(self@.funcs[i as int] == (
                    self.funcs.entries@[i as int].0@,
                    self.funcs.entries@[i as int].1.deep_view(),
                ));
                assert(now.last() == item@);
                if i == 0 {
                    assert("{"@ + Seq::<char>::empty() + item@ =~= "{"@ + item@);
                } else {
                    assert("{"@ + separated(entries.take(i as int)) + ", "@ + item@ =~= "{"@ + (
                    separated(entries.take(i as int)) + ", "@ + item@));
                }
            }
            append_separated(&mut text, i, item.as_str());
            i += 1;
        }
        assert(entries.take(entries.len() as int) =~= entries);
        vstd::string::StringExecFns::append(&mut text, "}");
        let line = join(text.as_str(), "\n");
        self.write(line.as_str());
    }

    /// Writes the variables on a line.
    pub fn print_vars(&mut self)
        ensures
            final(self).wf() == old(self).wf(),
            final(self)@ == written(old(self)@, table_text(var_entries(old(self)@.vars)) + "\n"@),
    {
        let mut text = "{".to_owned();
        let ghost entries = var_entries(self@.vars);
        let mut i: usize = 0;
        assert(separated(entries.take(0)) =~= Seq::<char>::empty());
        assert("{"@ + Seq::<char>::empty() =~= "{"@);
        while i < self.vars.entries.len()
            invariant
                i <= self.vars.entries.len(),
                entries == var_entries(self@.vars),
                entries.len() == self.vars.entries.len(),
                text@ == "{"@ + separated(entries.take(i as int)),
            decreases self.vars.entries.len() - i,
        {
            let name = quoted(self.vars.entries[i].0.as_str());
            let value = var_to_text(&self.vars.entries[i].1);
            let item = join3(name.as_str(), ": ", value.as_str());
            proof {
                let now = entries.take(i as int + 1);
                assert(now.drop_last() =~= entries.take(i as int));
                assert(self@.vars[i as int] == (
                    self.vars.entries@[i as int].0@,
                    self.vars.entries@[i as int].1.deep_view(),
                ));
                assert(now.last() == item@);
                if i == 0 {
                    assert("{"@ + Seq::<char>::empty() + item@ =~= "{"@ + item@);
                } else {
                    assert("{"@ + separated(entries.take(i as int)) + ", "@ + item@ =~= "{"@ + (
                    separated(entries.take(i as int)) + ", "@ + item@));
                }
            }
            append_separated(&mut text, i, item.as_str());
            i += 1;
        }
        assert(entries.take(entries.len() as int) =~= entries);
        vstd::string::StringExecFns::append(&mut text, "}");
        let line = join(text.as_str(), "\n");
        self.write(line.as_str());
    }

    /// The value of the special variable `name`.
    pub fn get_special(&self, name: &str) -> (r: Option<i32>)
        ensures
            r == table_get(self@.specials, name@),
    {
        match self.specials.get(name) {
            Some(v) => Some(*v),
            None => None,
        }
    }

    /// Gives the special variable `name` a value. Returns the value that it
    /// had.
    pub fn set_special(&mut self, name: &str, value: i32) -> (r: Option<i32>)
        requires
            old(self).wf(),
        ensures
            final(self).wf(),
            final(self)@ == (ForthEnvView {
                specials: table_put(old(self)@.specials, name@, value),
                ..old(self)@
            }),
            r == table_get(old(self)@.specials, name@),
    {
        self.specials.insert(name.to_owned(), value)
    }

    /// Takes the special variable `name` out. Returns the value that it had.
    pub fn clear_special(&mut self, name: &str) -> (r: Option<i32>)
        requires
            old(self).wf(),
        ensures
            final(self).wf(),
            final(self)@ == (ForthEnvView {
                specials: table_del(old(self)@.specials, name@),
                ..old(self)@
            }),
            r == table_get(old(self)@.specials, name@),
    {
        self.specials.remove(name)
    }

    /// Makes the variable `name` an array of `length` zeros; of none for a
    /// negative length.
    pub fn allot_array(&mut self, name: &str, length: i32)
        requires
            old(self).wf(),
        ensures
            final(self).wf(),
            final(self)@ == (ForthEnvView {
                vars: table_put(
                    old(self)@.vars,
                    name@,
                    ForthVarView::Array(
                        Seq::new(
                            if length < 0 {
                                0nat
                            } else {
                                length as nat
                            },
                            |i: int| 0i32,
                        ),
                    ),
                ),
                ..old(self)@
            }),
    {
        let mut items: Vec<i32> = Vec::new();
        let mut i: i32 = 0;
        while i < length
            invariant
                0 <= i,
                i <= length || length < 0,
                length < 0 ==> i == 0,
                items@ == Seq::new(i as nat, |k: int| 0i32),
            decreases length - i,
        {
            items.push(0);
            assert(items@ =~= Seq::new((i + 1) as nat, |k: int| 0i32));
            i += 1;
        }
        let _ = self.vars.insert(name.to_owned(), ForthVar::Array(items));
    }

    /// Sets the slot `pos` of the array `name` to `value`; see
    /// [`array_set_spec`].
    pub fn array_set(&mut self, name: &str, pos: i32, value: i32) -> (r: ForthResult<()>)
        requires
            old(self).wf(),
        ensures
            final(self).wf(),
            match array_set_spec(old(self)@.vars, name@, pos, value) {
                Ok(vars) => r is Ok && final(self)@ == (ForthEnvView { vars, ..old(self)@ }),
                Err(text) => r is Err && r->Err_0@ == text && final(self)@ == old(self)@,
            },
    {
        let var = match self.vars.get(name) {
            None => {
                return Err(join("No such array variable: ", name));
            },
            Some(var) => var.clone(),
        };
        match var {
            ForthVar::Var(_) => Err(join3("Variable ", name, " is not an array!")),
            ForthVar::Array(vec) => {
                let mut new_vec = vec;
                if pos >= 0 && new_vec.len() > (pos as usize) {
                    new_vec[pos as usize] = value;
                    let _ = self.vars.insert(name.to_owned(), ForthVar::Array(new_vec));
                    Ok(())
                } else {
                    let at = int_to_string(pos as i128);
                    let len = int_to_string(new_vec.len() as i128);
                    let head = join3("Cannot set at position: ", at.as_str(), " when array length is: ");
                    Err(join(head.as_str(), len.as_str()))
                }
            },
        }
    }
}

} // verus!
