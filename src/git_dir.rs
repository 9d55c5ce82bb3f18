use vstd::prelude::*;

verus! {

/// The suffix that marks a directory as a repository root: both a plain
/// `.git` directory and a bare `name.git` repository end with it.
pub open spec fn git_suffix() -> Seq<char> {
    seq!['.', 'g', 'i', 't']
}

/// `name` ends with `.git`.
pub open spec fn has_git_suffix(name: Seq<char>) -> bool {
    name.len() >= git_suffix().len() && name.subrange(
        name.len() - git_suffix().len(),
        name.len() as int,
    ) == git_suffix()
}

/// An entry name counts as a repository root when it is valid text that ends
/// with `.git`; a name that is not valid text never does.
pub open spec fn is_git_dir_name_spec(name: Option<Seq<char>>) -> bool {
    match name {
        Some(n) => has_git_suffix(n),
        None => false,
    }
}

/// Tells whether a directory entry's name marks a repository root. `None`
/// stands for a name that is not valid text.
pub fn is_git_dir_name(name: Option<&str>) -> (r: bool)
    ensures
        r == is_git_dir_name_spec(
            match name {
                Some(s) => Some(s@),
                None => None,
            },
        ),
{
    match name {
        None => false,
        Some(s) => {
            let n = s.unicode_len();
            if n < 4 {
                return false;
            }
            let a = s.get_char(n - 4);
            let b = s.get_char(n - 3);
            let c = s.get_char(n - 2);
            let d = s.get_char(n - 1);
            let r = a == '.' && b == 'g' && c == 'i' && d == 't';
            proof {
                let tail = s@.subrange(n - 4, n as int);
                if r {
                    assert(tail =~= git_suffix());
                } else {
                    if tail == git_suffix() {
                        assert(tail[0] == '.' && tail[1] == 'g' && tail[2] == 'i' && tail[3] == 't');
                    }
                }
            }
            r
        },
    }
}

} // verus!
