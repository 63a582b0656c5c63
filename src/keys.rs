use vstd::prelude::*;

verus! {

/// The separator between a namespace and a key in a composite key.
pub open spec fn nul() -> char {
    '\0'
}

/// `i` is the position of the first NUL character of `s`.
pub open spec fn is_first_nul(s: Seq<char>, i: int) -> bool {
    &&& 0 <= i < s.len()
    &&& s[i] == nul()
    &&& forall|j: int| 0 <= j < i ==> s[j] != nul()
}

/// The composite key under which `key` of `namespace` is stored: the
/// namespace (empty when absent), a NUL, then the key.
pub open spec fn composite_key(namespace: Option<Seq<char>>, key: Seq<char>) -> Seq<char> {
    let prefix = match namespace {
        Some(ns) => ns,
        None => Seq::<char>::empty(),
    };
    prefix + seq![nul()] + key
}

/// The position of the first NUL of `s`, when there is one.
pub open spec fn first_nul(s: Seq<char>) -> int {
    choose|i: int| is_first_nul(s, i)
}

/// The namespace and key that a composite key stands for: the text before
/// its first NUL (no namespace when that text is empty) and the text after it.
pub open spec fn split_composite(s: Seq<char>) -> Option<(Option<Seq<char>>, Seq<char>)> {
    if s.contains(nul()) {
        let i = first_nul(s);
        let namespace = if i == 0 {
            None
        } else {
            Some(s.subrange(0, i))
        };
        Some((namespace, s.subrange(i + 1, s.len() as int)))
    } else {
        None
    }
}

/// The view of an optional borrowed string.
pub open spec fn opt_str_view(s: Option<&str>) -> Option<Seq<char>> {
    match s {
        Some(t) => Some(t@),
        None => None,
    }
}

/// The view of an optional owned string.
pub open spec fn opt_string_view(s: Option<String>) -> Option<Seq<char>> {
    match s {
        Some(t) => Some(t@),
        None => None,
    }
}

/// Proves that the first NUL of a sequence is unique.
pub proof fn lemma_first_nul_unique(s: Seq<char>, i: int, j: int)
    requires
        is_first_nul(s, i),
        is_first_nul(s, j),
    ensures
        i == j,
{
    if i < j {
        assert(s[i] != nul());
    } else if j < i {
        assert(s[j] != nul());
    }
}

/// Proves that a sequence holding a NUL has a first one.
pub proof fn lemma_first_nul_exists(s: Seq<char>)
    requires
        s.contains(nul()),
    ensures
        is_first_nul(s, first_nul(s)),
    decreases s.len(),
{
    if s[0] == nul() {
        assert(is_first_nul(s, 0));
    } else {
        let t = s.drop_first();
        let k = choose|k: int| 0 <= k < s.len() && s[k] == nul();
        assert(t[k - 1] == nul());
        lemma_first_nul_exists(t);
        let i = first_nul(t);
        assert(is_first_nul(s, i + 1)) by {
            assert forall|j: int| 0 <= j < i + 1 implies s[j] != nul() by {
                if j > 0 {
                    assert(s[j] == t[j - 1]);
                }
            }
        }
    }
}

/// Whether `s` holds a NUL character.
pub fn contains_nul(s: &str) -> (r: bool)
    ensures
        r == s@.contains(nul()),
{
    let len = s.unicode_len();
    let mut i: usize = 0;
    while i < len
        invariant
            len == s@.len(),
            i <= len,
            forall|j: int| 0 <= j < i ==> s@[j] != nul(),
        decreases len - i,
    {
        if s.get_char(i) == '\0' {
            assert(s@[i as int] == nul());
            return true;
        }
        i = i + 1;
    }
    false
}

/// The namespace a composite key gives back: none for an absent or empty one.
pub open spec fn normalized_namespace(namespace: Option<Seq<char>>) -> Option<Seq<char>> {
    match namespace {
        Some(ns) => if ns.len() == 0 {
            None
        } else {
            Some(ns)
        },
        None => None,
    }
}

/// Splitting the composite key of a namespace and a key that hold no NUL
/// gives them back, an empty namespace coming back as none.
pub proof fn lemma_split_composite_key(namespace: Option<Seq<char>>, key: Seq<char>)
    requires
        namespace matches Some(ns) ==> !ns.contains(nul()),
        !key.contains(nul()),
    ensures
        split_composite(composite_key(namespace, key)) == Some((normalized_namespace(namespace), key)),
{
    let prefix = match namespace {
        Some(ns) => ns,
        None => Seq::<char>::empty(),
    };
    let s = composite_key(namespace, key);
    let i = prefix.len() as int;
    assert(s[i] == nul());
    assert forall|j: int| 0 <= j < i implies s[j] != nul() by {
        assert(s[j] == prefix[j]);
        if s[j] == nul() {
            assert(prefix.contains(nul()));
        }
    }
    assert(is_first_nul(s, i));
    assert(s.contains(nul()));
    lemma_first_nul_exists(s);
    lemma_first_nul_unique(s, i, first_nul(s));
    assert(s.subrange(0, i) =~= prefix);
    assert(s.subrange(i + 1, s.len() as int) =~= key);
}

/// Builds the composite key of `key` within `namespace`.
pub fn full_key(namespace: Option<&str>, key: &str) -> (r: String)
    ensures
        r@ == composite_key(opt_str_view(namespace), key@),
{
    let mut full_key = String::new();
    if let Some(ns) = namespace {
        full_key.append(ns);
    }
    let separator = "\0";
    proof {
        reveal_strlit("\0");
    }
    full_key.append(separator);
    full_key.append(key);
    proof {
        assert(full_key@ =~= composite_key(opt_str_view(namespace), key@));
    }
    full_key
}

/// Splits a composite key at its first NUL into its namespace and key.
/// Returns `None` when the text holds no NUL.
pub fn split_key(full_key: &str) -> (r: Option<(Option<String>, String)>)
    ensures
        r matches Some((ns, k)) ==> split_composite(full_key@) == Some((opt_string_view(ns), k@)),
        r is None ==> split_composite(full_key@) is None,
{
    let len = full_key.unicode_len();
    let mut i: usize = 0;
    while i < len
        invariant
            len == full_key@.len(),
            i <= len,
            forall|j: int| 0 <= j < i ==> full_key@[j] != nul(),
        decreases len - i,
    {
        if full_key.get_char(i) == '\0' {
            proof {
                assert(is_first_nul(full_key@, i as int));
                assert(full_key@.contains(nul()));
                lemma_first_nul_exists(full_key@);
                lemma_first_nul_unique(full_key@, i as int, first_nul(full_key@));
            }
            let namespace = if i == 0 {
                None
            } else {
                Some(full_key.substring_char(0, i).to_owned())
            };
            let key = full_key.substring_char(i + 1, len).to_owned();
            return Some((namespace, key));
        }
        i = i + 1;
    }
    proof {
        assert(!full_key@.contains(nul()));
    }
    None
}

/// The name of the tree that holds the keys of `namespace` in `database`:
/// the database name, `::kv::`, then the namespace (empty when absent).
pub fn key_tree(database: &str, namespace: Option<String>) -> (r: String)
    ensures
        r@ == database@ + "::kv::"@ + match opt_string_view(namespace) {
            Some(ns) => ns,
            None => Seq::<char>::empty(),
        },
{
    let mut name = String::from_str(database);
    name.append("::kv::");
    match namespace {
        Some(ns) => name.append(ns.as_str()),
        None => {},
    }
    proof {
        assert(name@ =~= database@ + "::kv::"@ + match opt_string_view(namespace) {
            Some(ns) => ns,
            None => Seq::<char>::empty(),
        });
    }
    name
}

/// A key within a named tree of a database.
#[derive(Clone, Debug, PartialEq, Eq, Hash)]
pub struct TreeKey {
    pub tree: String,
    pub key: String,
}

impl TreeKey {
    /// The key `key` of the tree `tree` of `database`; the tree's full name is
    /// the database name, `::`, then the tree name.
    pub fn new(database: &str, tree: &str, key: String) -> (r: TreeKey)
        ensures
            r.tree@ == database@ + "::"@ + tree@,
            r.key@ == key@,
    {
        let mut name = String::from_str(database);
        name.append("::");
        name.append(tree);
        TreeKey { tree: name, key }
    }
}

} // verus!
