//! The whole-program preconditions, checked on the syntax tree before any IR
//! is built: exactly one `main`, without parameters, returning void.
use vstd::prelude::*;
use crate::ast;
use crate::errors::{one_err, SemanticCheckError};
use crate::rules::{main_errs, main_name, mains, mains_of};

verus! {

fn is_main(s: &String) -> (r: bool)
    ensures
        r == (s@ == main_name()),
{
    let st = s.as_str();
    if st.unicode_len() != 4 {
        return false;
    }
    let r = st.get_char(0) == 'm' && st.get_char(1) == 'a' && st.get_char(2) == 'i'
        && st.get_char(3) == 'n';
    assert(r ==> s@ =~= main_name());
    r
}

/// The index of the one method named `main`; none where there are none or several.
pub fn unique_main(p: &ast::Program) -> (r: Option<usize>)
    ensures
        match r {
            Some(i) => mains(*p).len() == 1 && i < p.method_decls@.len() && p.method_decls@[i as int]
                == mains(*p)[0],
            None => mains(*p).len() != 1,
        },
{
    let ms = &p.method_decls;
    let mut count: usize = 0;
    let mut last: usize = 0;
    let mut i: usize = 0;
    assert(ms@.subrange(0, 0) =~= Seq::<ast::MethodDecl>::empty());
    while i < ms.len()
        invariant
            i <= ms@.len(),
            count as int == mains_of(ms@.subrange(0, i as int)).len(),
            count <= i,
            count > 0 ==> last < i && mains_of(ms@.subrange(0, i as int)).last() == ms@[last as int],
        decreases ms@.len() - i,
    {
        let ghost s = ms@.subrange(0, i as int + 1);
        assert(s.drop_last() =~= ms@.subrange(0, i as int));
        if is_main(&ms[i].id) {
            count = count + 1;
            last = i;
        }
        i = i + 1;
    }
    assert(ms@.subrange(0, i as int) =~= ms@);
    if count == 1 {
        Some(last)
    } else {
        None
    }
}

/// Every failed precondition, in order.
pub fn main_errors(p: &ast::Program) -> (r: Vec<SemanticCheckError>)
    ensures
        r@ == main_errs(*p),
{
    match unique_main(p) {
        None => one_err(SemanticCheckError::MainMethodShouldOnlyOne),
        Some(i) => {
            let m = &p.method_decls[i];
            let mut errors: Vec<SemanticCheckError> = Vec::new();
            if m.args.len() != 0 {
                errors.push(SemanticCheckError::MainMethodArgsShouldEmpty);
            }
            if m.return_type != ast::ReturnType::Void {
                errors.push(SemanticCheckError::MainMethodShouldReturnVoid);
            }
            assert(errors@ =~= main_errs(*p));
            errors
        },
    }
}

/// The first failed precondition, if any.
pub fn check_main(p: &ast::Program) -> (r: Result<(), SemanticCheckError>)
    ensures
        match r {
            Ok(_) => main_errs(*p).len() == 0,
            Err(e) => main_errs(*p).len() > 0 && e == main_errs(*p)[0],
        },
{
    let mut errors = main_errors(p);
    if errors.len() == 0 {
        Ok(())
    } else {
        Err(errors.remove(0))
    }
}

} // verus!
