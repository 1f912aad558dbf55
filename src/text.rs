//! Text helpers: string comparison, decimal digits, dotted paths and file stems.
use vstd::prelude::*;

verus! {

/// Whether `a` holds the text `b`.
pub fn text_eq(a: &String, b: &str) -> (r: bool)
    ensures
        r == (a@ == b@),
{
    let t = String::from_str(b);
    *a == t
}

/// Whether `p` is a prefix of `s`.
pub fn starts_with(s: &str, p: &str) -> (r: bool)
    ensures
        r == p@.is_prefix_of(s@),
{
    let n = p.unicode_len();
    let m = s.unicode_len();
    if n > m {
        return false;
    }
    let mut i: usize = 0;
    while i < n
        invariant
            n == p@.len(),
            m == s@.len(),
            n <= m,
            i <= n,
            forall|j: int| 0 <= j < i ==> p@[j] == s@[j],
        decreases n - i,
    {
        if p.get_char(i) != s.get_char(i) {
            return false;
        }
        i = i + 1;
    }
    true
}

pub open spec fn digit_char(d: nat) -> char {
    if d == 0 { '0' }
    else if d == 1 { '1' }
    else if d == 2 { '2' }
    else if d == 3 { '3' }
    else if d == 4 { '4' }
    else if d == 5 { '5' }
    else if d == 6 { '6' }
    else if d == 7 { '7' }
    else if d == 8 { '8' }
    else { '9' }
}

/// The decimal digits of `n`, most significant first, without leading zeros.
pub open spec fn decimal(n: nat) -> Seq<char>
    decreases n,
{
    if n < 10 {
        seq![digit_char(n)]
    } else {
        decimal(n / 10).push(digit_char(n % 10))
    }
}

fn digit_str(d: usize) -> (r: &'static str)
    requires
        d < 10,
    ensures
        r@ == seq![digit_char(d as nat)],
{
    proof {
        reveal_strlit("0");
        reveal_strlit("1");
        reveal_strlit("2");
        reveal_strlit("3");
        reveal_strlit("4");
        reveal_strlit("5");
        reveal_strlit("6");
        reveal_strlit("7");
        reveal_strlit("8");
        reveal_strlit("9");
    }
    if d == 0 { "0" }
    else if d == 1 { "1" }
    else if d == 2 { "2" }
    else if d == 3 { "3" }
    else if d == 4 { "4" }
    else if d == 5 { "5" }
    else if d == 6 { "6" }
    else if d == 7 { "7" }
    else if d == 8 { "8" }
    else { "9" }
}

/// `n` written in decimal.
pub fn decimal_string(n: usize) -> (r: String)
    ensures
        r@ == decimal(n as nat),
    decreases n,
{
    if n < 10 {
        String::from_str(digit_str(n))
    } else {
        let mut s = decimal_string(n / 10);
        s.append(digit_str(n % 10));
        s
    }
}

/// The segments of `path` joined by dots.
pub open spec fn join_dotted(path: Seq<Seq<char>>) -> Seq<char>
    decreases path.len(),
{
    if path.len() == 0 {
        seq![]
    } else if path.len() == 1 {
        path[0]
    } else {
        join_dotted(path.drop_last()) + seq!['.'] + path.last()
    }
}

pub open spec fn texts(v: Seq<String>) -> Seq<Seq<char>> {
    v.map_values(|s: String| s@)
}

/// The segments of `path` joined by dots.
pub fn join_path(path: &Vec<String>) -> (r: String)
    ensures
        r@ == join_dotted(texts(path@)),
{
    let mut r = String::new();
    let mut i: usize = 0;
    while i < path.len()
        invariant
            i <= path@.len(),
            r@ == join_dotted(texts(path@.take(i as int))),
        decreases path.len() - i,
    {
        let ghost t1 = texts(path@.take(i as int + 1));
        proof {
            assert(t1.drop_last() =~= texts(path@.take(i as int)));
            assert(t1.last() == path@[i as int]@);
            assert(t1.len() == i + 1);
        }
        let ghost before = r@;
        if i > 0 {
            r.append(".");
            proof {
                reveal_strlit(".");
                assert("."@ =~= seq!['.']);
                assert(r@ == before + seq!['.']);
            }
        }
        r.append(path[i].as_str());
        proof {
            if i == 0 {
                assert(r@ =~= t1[0]);
            } else {
                assert(r@ =~= join_dotted(t1.drop_last()) + seq!['.'] + t1.last());
            }
        }
        i = i + 1;
    }
    proof {
        assert(path@.take(path@.len() as int) =~= path@);
    }
    r
}

/// The index of the last `c` in `s`, or -1.
pub open spec fn last_index_of(s: Seq<char>, c: char) -> int
    decreases s.len(),
{
    if s.len() == 0 {
        -1
    } else if s.last() == c {
        s.len() - 1
    } else {
        last_index_of(s.drop_last(), c)
    }
}

proof fn lemma_last_index_bounds(s: Seq<char>, c: char)
    ensures
        -1 <= last_index_of(s, c) < s.len(),
    decreases s.len(),
{
    if s.len() > 0 && s.last() != c {
        lemma_last_index_bounds(s.drop_last(), c);
    }
}

fn find_last(s: &str, c: char) -> (r: Option<usize>)
    ensures
        r matches Some(k) ==> k == last_index_of(s@, c) && k < s@.len(),
        r is None ==> last_index_of(s@, c) == -1,
{
    let n = s.unicode_len();
    let mut r: Option<usize> = None;
    let mut i: usize = 0;
    while i < n
        invariant
            n == s@.len(),
            i <= n,
            r matches Some(k) ==> k == last_index_of(s@.take(i as int), c) && k < i,
            r is None ==> last_index_of(s@.take(i as int), c) == -1,
        decreases n - i,
    {
        proof {
            assert(s@.take(i as int + 1).drop_last() =~= s@.take(i as int));
        }
        if s.get_char(i) == c {
            r = Some(i);
        }
        i = i + 1;
    }
    proof {
        assert(s@.take(n as int) =~= s@);
    }
    r
}

/// The last component of a path: its last `/`-separated segment that is
/// neither empty nor `.` (so `src/atoms/` and `src/atoms/.` end in `atoms`).
pub open spec fn last_component(p: Seq<char>) -> Option<Seq<char>>
    decreases p.len(),
{
    let i = last_index_of(p, '/');
    let seg = p.subrange(i + 1, p.len() as int);
    if seg.len() == 0 || seg =~= seq!['.'] {
        if 0 <= i < p.len() {
            last_component(p.take(i))
        } else {
            None
        }
    } else {
        Some(seg)
    }
}

/// The file stem of a path: its last component without the extension (the
/// text from its last `.`, unless that `.` opens the name). A path with no
/// last component, or whose last component is `..`, has none.
pub open spec fn file_stem(p: Seq<char>) -> Option<Seq<char>> {
    match last_component(p) {
        None => None,
        Some(name) => if name =~= seq!['.', '.'] {
            None
        } else if last_index_of(name, '.') > 0 {
            Some(name.take(last_index_of(name, '.')))
        } else {
            Some(name)
        },
    }
}

/// The last component of a path, as `last_component` states it.
fn component_of(p: &str) -> (r: Option<&str>)
    ensures
        r matches Some(s) ==> last_component(p@) == Some(s@),
        r is None ==> last_component(p@) is None,
{
    let n = p.unicode_len();
    let mut end: usize = n;
    proof {
        assert(p@.take(n as int) =~= p@);
    }
    loop
        invariant
            end <= n,
            n == p@.len(),
            last_component(p@) == last_component(p@.take(end as int)),
        decreases end,
    {
        let prefix = p.substring_char(0, end);
        let slash = find_last(prefix, '/');
        let start = match slash {
            Some(k) => k + 1,
            None => 0,
        };
        proof {
            lemma_last_index_bounds(prefix@, '/');
        }
        let seg = prefix.substring_char(start, end);
        let len = seg.unicode_len();
        let dot = len == 1 && seg.get_char(0) == '.';
        proof {
            if len == 1 && dot {
                assert(seg@ =~= seq!['.']);
            }
            if len == 1 && !dot {
                assert(!(seg@ =~= seq!['.']));
            }
        }
        if len == 0 || dot {
            match slash {
                None => return None,
                Some(k) => {
                    proof {
                        assert(prefix@.take(k as int) =~= p@.take(k as int));
                    }
                    end = k;
                },
            }
        } else {
            proof {
                assert(!(seg@ =~= seq!['.']));
            }
            return Some(seg);
        }
    }
}

/// The file stem of a path, as `file_stem` states it.
pub fn stem_of(p: &str) -> (r: Option<String>)
    ensures
        r matches Some(s) ==> file_stem(p@) == Some(s@),
        r is None ==> file_stem(p@) is None,
{
    let name = match component_of(p) {
        Some(name) => name,
        None => return None,
    };
    let len = name.unicode_len();
    if len == 2 && name.get_char(0) == '.' && name.get_char(1) == '.' {
        proof {
            assert(name@ =~= seq!['.', '.']);
        }
        return None;
    }
    proof {
        if len == 2 {
            assert(!(name@ =~= seq!['.', '.']) || (name@[0] == '.' && name@[1] == '.'));
        }
    }
    let dot = find_last(name, '.');
    proof {
        lemma_last_index_bounds(name@, '.');
    }
    match dot {
        Some(k) if k > 0 => Some(String::from_str(name.substring_char(0, k))),
        _ => Some(String::from_str(name)),
    }
}

} // verus!
