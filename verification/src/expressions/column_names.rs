//! The names of columns and of fields nested in them.

use vstd::prelude::*;
use vstd::std_specs::cmp::PartialEqSpecImpl;

use crate::number::{is_ascii_digit, is_digit};
use crate::text::{code, to_chars};

verus! {

/// The path to a column: the name of a top-level column, and of each field on the way down from it.
#[derive(Debug)]
pub struct ColumnName {
    /// The names, outermost first.
    pub path: Vec<String>,
}

/// What some names are.
pub open spec fn names_view(names: Seq<String>) -> Seq<Seq<char>> {
    names.map_values(|name: String| name@)
}

impl View for ColumnName {
    type V = Seq<Seq<char>>;

    open spec fn view(&self) -> Seq<Seq<char>> {
        names_view(self.path@)
    }
}

/// Whether a character can stand in a name without quotes.
pub open spec fn is_plain(c: char) -> bool {
    is_digit(c) || 'a' <= c <= 'z' || 'A' <= c <= 'Z' || c == '_'
}

/// Whether a name can stand without quotes: it is not empty, does not begin with a digit and holds
/// nothing but letters, digits and underscores.
pub open spec fn is_simple(name: Seq<char>) -> bool {
    &&& name.len() > 0
    &&& !is_digit(name[0])
    &&& forall|i: int| 0 <= i < name.len() ==> is_plain(#[trigger] name[i])
}

/// The first `n` characters of a name, each backtick doubled.
pub open spec fn doubled(name: Seq<char>, n: nat) -> Seq<char>
    decreases n,
{
    if n == 0 || n > name.len() {
        Seq::empty()
    } else if name[n - 1] == '`' {
        doubled(name, (n - 1) as nat).push('`').push('`')
    } else {
        doubled(name, (n - 1) as nat).push(name[n - 1])
    }
}

/// A name as it is written: as it is, or within backticks.
pub open spec fn written(name: Seq<char>) -> Seq<char> {
    if is_simple(name) {
        name
    } else {
        "`"@ + doubled(name, name.len()) + "`"@
    }
}

/// The first `n` names of a path, with dots between them.
pub open spec fn path_text(path: Seq<Seq<char>>, n: nat) -> Seq<char>
    decreases n,
{
    if n == 0 || n > path.len() {
        Seq::empty()
    } else {
        let before = if n == 1 {
            Seq::empty()
        } else {
            path_text(path, (n - 1) as nat) + "."@
        };
        before + written(path[n - 1])
    }
}

/// Whether a character can stand in a name without quotes.
pub fn is_plain_char(c: char) -> (r: bool)
    ensures
        r == is_plain(c),
{
    let n: u32 = code(c);
    is_ascii_digit(c) || (97 <= n && n <= 122) || (65 <= n && n <= 90) || c == '_'
}

fn is_simple_name(name: &[char]) -> (r: bool)
    ensures
        r == is_simple(name@),
{
    if name.len() == 0 || is_ascii_digit(name[0]) {
        return false;
    }
    let mut i: usize = 0;
    while i < name.len()
        invariant
            i <= name.len(),
            forall|j: int| 0 <= j < i ==> is_plain(#[trigger] name@[j]),
        decreases name.len() - i,
    {
        if !is_plain_char(name[i]) {
            assert(!is_plain(name@[i as int]));
            return false;
        }
        i += 1;
    }
    true
}

fn push_written(out: &mut String, name: &str)
    ensures
        final(out)@ == old(out)@ + written(name@),
{
    let chars: Vec<char> = to_chars(name);
    if is_simple_name(chars.as_slice()) {
        out.append(name);
        return;
    }
    out.append("`");
    let ghost start = out@;
    let mut i: usize = 0;
    assert(out@ =~= start + doubled(name@, 0));
    while i < chars.len()
        invariant
            i <= chars.len(),
            chars@ == name@,
            out@ == start + doubled(name@, i as nat),
        decreases chars.len() - i,
    {
        out.push(chars[i]);
        if chars[i] == '`' {
            out.push('`');
        }
        i += 1;
        assert(out@ =~= start + doubled(name@, i as nat));
    }
    out.append("`");
    assert(out@ =~= old(out)@ + written(name@));
}

impl ColumnName {
    /// The column with that path.
    pub fn new(path: Vec<String>) -> (r: ColumnName)
        ensures
            r.path == path,
    {
        ColumnName { path }
    }

    /// The top-level column with that name.
    pub fn top_level(name: &str) -> (r: ColumnName)
        ensures
            r@ == seq![name@],
    {
        let r: ColumnName = ColumnName { path: vec![name.to_owned()] };
        assert(r@ =~= seq![name@]);
        r
    }

    /// The names, outermost first.
    pub fn path(&self) -> (r: &[String])
        ensures
            names_view(r@) == self@,
    {
        self.path.as_slice()
    }

    /// The path as text.
    pub fn to_string(&self) -> (r: String)
        ensures
            r@ == path_text(self@, self@.len()),
    {
        let mut text: String = String::new();
        let mut i: usize = 0;
        assert(text@ =~= path_text(self@, 0));
        while i < self.path.len()
            invariant
                i <= self.path.len(),
                text@ == path_text(self@, i as nat),
            decreases self.path.len() - i,
        {
            if i > 0 {
                text.append(".");
            }
            push_written(&mut text, self.path[i].as_str());
            i += 1;
            assert(text@ =~= path_text(self@, i as nat));
        }
        text
    }

    /// Whether two paths are the same.
    pub fn same(&self, other: &ColumnName) -> (r: bool)
        ensures
            r == (self@ == other@),
    {
        names_same(self.path.as_slice(), other.path.as_slice())
    }
}

/// Whether two lists hold the same names.
pub fn names_same(a: &[String], b: &[String]) -> (r: bool)
    ensures
        r == (names_view(a@) == names_view(b@)),
{
    if a.len() != b.len() {
        assert(names_view(a@).len() != names_view(b@).len());
        return false;
    }
    let mut i: usize = 0;
    while i < a.len()
        invariant
            i <= a.len(),
            a.len() == b.len(),
            forall|j: int| 0 <= j < i ==> (#[trigger] a@[j])@ == b@[j]@,
        decreases a.len() - i,
    {
        if a[i] != b[i] {
            assert(names_view(a@)[i as int] != names_view(b@)[i as int]);
            return false;
        }
        i += 1;
    }
    assert(names_view(a@) =~= names_view(b@));
    true
}

/// Names equal to these.
pub fn names_clone(names: &[String]) -> (r: Vec<String>)
    ensures
        names_view(r@) == names_view(names@),
{
    let mut r: Vec<String> = Vec::new();
    let mut i: usize = 0;
    while i < names.len()
        invariant
            i <= names.len(),
            r@.len() == i,
            forall|j: int| 0 <= j < i ==> (#[trigger] r@[j])@ == names@[j]@,
        decreases names.len() - i,
    {
        r.push(names[i].clone());
        i += 1;
    }
    assert(names_view(r@) =~= names_view(names@));
    r
}

impl Clone for ColumnName {
    fn clone(&self) -> (r: ColumnName)
        ensures
            r@ == self@,
    {
        ColumnName { path: names_clone(self.path.as_slice()) }
    }
}

impl PartialEq for ColumnName {
    fn eq(&self, other: &ColumnName) -> (r: bool) {
        self.same(other)
    }
}

impl PartialEqSpecImpl for ColumnName {
    open spec fn obeys_eq_spec() -> bool {
        true
    }

    open spec fn eq_spec(&self, other: &ColumnName) -> bool {
        self@ == other@
    }
}

// ---------------------------------------------------------------------------------------------
// Reading a name within backticks
// ---------------------------------------------------------------------------------------------

/// The name that begins at `from`, inside an opening backtick, and the position after its closing
/// backtick; nothing where there is no closing backtick. Two backticks stand for one.
pub open spec fn escaped_name(s: Seq<char>, from: int) -> Option<(Seq<char>, int)>
    decreases s.len() - from,
{
    if from >= s.len() {
        None
    } else if s[from] != '`' {
        match escaped_name(s, from + 1) {
            Some((rest, end)) => Some((seq![s[from]] + rest, end)),
            None => None,
        }
    } else if from + 1 < s.len() && s[from + 1] == '`' {
        match escaped_name(s, from + 2) {
            Some((rest, end)) => Some((seq!['`'] + rest, end)),
            None => None,
        }
    } else {
        Some((Seq::empty(), from + 1))
    }
}

/// The name that begins at `from`, inside an opening backtick, and the position after its closing
/// backtick.
pub fn parse_escaped_field_name(s: &[char], from: usize) -> (r: Option<(String, usize)>)
    requires
        from <= s@.len(),
    ensures
        match escaped_name(s@, from as int) {
            Some((name, end)) => r matches Some((n, e)) && n@ == name && e == end,
            None => r is None,
        },
        r matches Some((_, end)) ==> from < end <= s@.len(),
{
    let mut name: String = String::new();
    let mut i: usize = from;
    assert(escaped_name(s@, from as int) matches Some((rest, end)) ==> rest =~= name@ + rest);
    while i < s.len()
        invariant
            from <= i <= s@.len(),
            match (escaped_name(s@, from as int), escaped_name(s@, i as int)) {
                (Some((all, end)), Some((rest, rest_end))) => all == name@ + rest && end
                    == rest_end,
                (None, None) => true,
                _ => false,
            },
        decreases s@.len() - i,
    {
        let ghost before = name@;
        if s[i] != '`' {
            name.push(s[i]);
            proof {
                if let Some((rest, _)) = escaped_name(s@, i + 1) {
                    assert(name@ + rest =~= before + (seq![s@[i as int]] + rest));
                }
            }
            i += 1;
        } else if i + 1 < s.len() && s[i + 1] == '`' {
            name.push('`');
            proof {
                if let Some((rest, _)) = escaped_name(s@, i + 2) {
                    assert(name@ + rest =~= before + (seq!['`'] + rest));
                }
            }
            i += 2;
        } else {
            assert(name@ + Seq::<char>::empty() =~= name@);
            return Some((name, i + 1));
        }
    }
    None
}

/// A name that was written within backticks is read back.
pub proof fn law_written_name_is_read_back(name: Seq<char>, before: Seq<char>, after: Seq<char>)
    requires
        after.len() > 0 ==> after[0] != '`',
    ensures
        escaped_name(
            before + doubled(name, name.len()) + seq!['`'] + after,
            before.len() as int,
        ) == Some((name, (before.len() + doubled(name, name.len()).len() + 1) as int)),
{
    lemma_read_back(name, 0, before, after);
    assert(doubled(name, 0) =~= Seq::<char>::empty());
    assert(name.skip(0) =~= name);
}

/// From the place of the `n`th character of a name on, the rest of the name is read back.
proof fn lemma_read_back(name: Seq<char>, n: nat, before: Seq<char>, after: Seq<char>)
    requires
        n <= name.len(),
        after.len() > 0 ==> after[0] != '`',
    ensures
        escaped_name(
            before + doubled(name, name.len()) + seq!['`'] + after,
            (before.len() + doubled(name, n).len()) as int,
        ) == Some(
            (name.skip(n as int), (before.len() + doubled(name, name.len()).len() + 1) as int),
        ),
    decreases name.len() - n,
{
    let all = doubled(name, name.len());
    let text = before + all + seq!['`'] + after;
    let at: int = before.len() + doubled(name, n).len() as int;
    if n == name.len() {
        assert(text[at] == '`');
        assert(at + 1 < text.len() ==> text[at + 1] == after[0]);
        assert(name.skip(n as int) =~= Seq::<char>::empty());
    } else {
        lemma_doubled_prefix(name, n + 1, name.len());
        lemma_read_back(name, n + 1, before, after);
        let rest = name.skip(n as int + 1);
        assert(name.skip(n as int) =~= seq![name[n as int]] + rest);
        let next = doubled(name, n + 1);
        assert forall|i: int| 0 <= i < next.len() implies text[before.len() + i] == next[i] by {
            assert(all[i] == next[i]);
        }
        assert(text[at] == next[doubled(name, n).len() as int]);
        if name[n as int] == '`' {
            assert(text[at + 1] == next[doubled(name, n).len() as int + 1]);
        }
    }
}

/// The first characters of a name with its backticks doubled are those of the whole.
proof fn lemma_doubled_prefix(name: Seq<char>, n: nat, m: nat)
    requires
        n <= m <= name.len(),
    ensures
        doubled(name, n).len() <= doubled(name, m).len(),
        forall|i: int|
            0 <= i < doubled(name, n).len() ==> #[trigger] doubled(name, m)[i] == doubled(
                name,
                n,
            )[i],
    decreases m,
{
    if n < m {
        lemma_doubled_prefix(name, n, (m - 1) as nat);
    }
}

} // verus!
