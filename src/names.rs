use vstd::prelude::*;

verus! {

/// The final path segment of a URL: what follows its last `/`, or the whole
/// text when it holds no `/`. Artifacts are stored on disk under this name.
pub open spec fn file_name_of(url: Seq<char>) -> Seq<char>
    decreases url.len(),
{
    if url.len() == 0 {
        url
    } else if url.last() == '/' {
        Seq::empty()
    } else {
        file_name_of(url.drop_last()).push(url.last())
    }
}

/// The names held by a directory listing.
pub open spec fn names_of(folder: Seq<String>) -> Seq<Seq<char>> {
    folder.map_values(|s: String| s@)
}

/// A text without `/` is its own file name.
pub proof fn lemma_file_name_without_slash(s: Seq<char>)
    requires
        !s.contains('/'),
    ensures
        file_name_of(s) == s,
    decreases s.len(),
{
    if s.len() > 0 {
        assert(!s.drop_last().contains('/')) by {
            if s.drop_last().contains('/') {
                let k = choose|k: int| 0 <= k < s.drop_last().len() && s.drop_last()[k] == '/';
                assert(s[k] == '/');
            }
        }
        assert(s[s.len() - 1] != '/');
        lemma_file_name_without_slash(s.drop_last());
        assert(s.drop_last().push(s.last()) =~= s);
    }
}

/// The file name of a text is what follows its last `/`.
pub proof fn lemma_file_name_after_last_slash(a: Seq<char>, b: Seq<char>)
    requires
        !b.contains('/'),
    ensures
        file_name_of(a + seq!['/'] + b) == b,
    decreases b.len(),
{
    let s = a + seq!['/'] + b;
    if b.len() == 0 {
        assert(s.last() == '/');
        assert(b =~= Seq::<char>::empty());
    } else {
        assert(!b.drop_last().contains('/')) by {
            if b.drop_last().contains('/') {
                let k = choose|k: int| 0 <= k < b.drop_last().len() && b.drop_last()[k] == '/';
                assert(b[k] == '/');
            }
        }
        assert(b[b.len() - 1] != '/');
        assert(s.drop_last() =~= a + seq!['/'] + b.drop_last());
        lemma_file_name_after_last_slash(a, b.drop_last());
        assert(b.drop_last().push(b.last()) =~= b);
    }
}

/// Relies on str::rsplit_once with a `/` pattern: `None` when the text holds
/// no `/`, else the text before and the text after its last `/`.
#[verifier::external_body]
fn split_at_last_slash(s: &str) -> (r: Option<(&str, &str)>)
    ensures
        r is None <==> !s@.contains('/'),
        r matches Some(parts) ==> s@ == parts.0@ + seq!['/'] + parts.1@ && !parts.1@.contains('/'),
{
    s.rsplit_once('/')
}

/// The name under which the artifact at `url` is stored.
pub fn get_name(url: &String) -> (r: &str)
    ensures
        r@ == file_name_of(url@),
{
    match split_at_last_slash(url.as_str()) {
        None => {
            proof {
                lemma_file_name_without_slash(url@);
            }
            url.as_str()
        },
        Some(parts) => {
            proof {
                lemma_file_name_after_last_slash(parts.0@, parts.1@);
            }
            parts.1
        },
    }
}

/// The position of the first entry of `folder` named `name`, if any.
pub fn folder_contains_file_name(folder: &Vec<String>, name: &String) -> (r: Option<usize>)
    ensures
        match r {
            Some(i) => {
                &&& i < folder@.len()
                &&& folder@[i as int]@ == name@
                &&& forall|j: int| 0 <= j < i ==> folder@[j]@ != name@
            },
            None => !names_of(folder@).contains(name@),
        },
{
    let mut i: usize = 0;
    while i < folder.len()
        invariant
            i <= folder@.len(),
            forall|j: int| 0 <= j < i ==> folder@[j]@ != name@,
        decreases folder@.len() - i,
    {
        if folder[i] == *name {
            return Some(i);
        }
        i = i + 1;
    }
    proof {
        if names_of(folder@).contains(name@) {
            let k = choose|k: int| 0 <= k < names_of(folder@).len() && names_of(folder@)[k] == name@;
            assert(folder@[k]@ == name@);
        }
    }
    None
}

} // verus!
