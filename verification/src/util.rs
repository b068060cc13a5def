//! Small shared value types and text helpers: the `name.namespace`
//! identity, decimal rendering of counters, and the compact age text
//! used by listings.

use vstd::prelude::*;

verus! {

/// A workload identity: a name qualified by a namespace. Its textual
/// form is `name.namespace`.
pub struct NamespacedName {
    pub name: String,
    pub namespace: String,
}

/// Mathematical image of a [`NamespacedName`].
#[verifier::ext_equal]
pub ghost struct NamespacedNameView {
    pub name: Seq<char>,
    pub namespace: Seq<char>,
}

impl View for NamespacedName {
    type V = NamespacedNameView;

    open spec fn view(&self) -> NamespacedNameView {
        NamespacedNameView { name: self.name@, namespace: self.namespace@ }
    }
}

impl Clone for NamespacedName {
    fn clone(&self) -> (r: Self)
        ensures
            r@ == self@,
    {
        NamespacedName { name: self.name.clone(), namespace: self.namespace.clone() }
    }
}

/// What parsing a `name.namespace` text yields: split at the first
/// dot, or all name and an empty namespace when there is no dot.
pub open spec fn spec_is_parsed_name(s: Seq<char>, r: NamespacedNameView) -> bool {
    ||| ((forall|k: int| 0 <= k < s.len() ==> s[k] != '.') && r.name == s && r.namespace
        == Seq::<char>::empty())
    ||| (exists|d: int|
        0 <= d < s.len() && s[d] == '.' && (forall|k: int| 0 <= k < d ==> s[k] != '.') && r.name
            == s.take(d) && r.namespace == s.skip(d + 1))
}

impl NamespacedName {
    /// Splits `name.namespace` at the first dot. A text without a dot
    /// is all name, with an empty namespace.
    pub fn parse(s: &str) -> (r: NamespacedName)
        ensures
            spec_is_parsed_name(s@, r@),
    {
        let n = s.unicode_len();
        let mut i: usize = 0;
        while i < n
            invariant
                i <= n,
                n == s@.len(),
                forall|k: int| 0 <= k < i ==> s@[k] != '.',
            decreases n - i,
        {
            if s.get_char(i) == '.' {
                let name = s.substring_char(0, i).to_owned();
                let namespace = s.substring_char(i + 1, n).to_owned();
                proof {
                    assert(s@.take(i as int) =~= s@.subrange(0, i as int));
                    assert(s@.skip(i as int + 1) =~= s@.subrange(i as int + 1, n as int));
                }
                return NamespacedName { name, namespace };
            }
            i = i + 1;
        }
        NamespacedName { name: s.to_owned(), namespace: String::new() }
    }

    /// The textual form `name.namespace`.
    pub fn to_text(&self) -> (r: String)
        ensures
            r@ == self@.name + "."@ + self@.namespace,
    {
        let mut out = self.name.clone();
        out.append(".");
        out.append(self.namespace.as_str());
        out
    }
}

/// The decimal digit character for a value below ten.
pub open spec fn spec_digit_char(d: nat) -> char {
    if d == 0 {
        '0'
    } else if d == 1 {
        '1'
    } else if d == 2 {
        '2'
    } else if d == 3 {
        '3'
    } else if d == 4 {
        '4'
    } else if d == 5 {
        '5'
    } else if d == 6 {
        '6'
    } else if d == 7 {
        '7'
    } else if d == 8 {
        '8'
    } else {
        '9'
    }
}

/// The decimal digits of a number, most significant first.
pub open spec fn spec_digits(n: nat) -> Seq<char>
    decreases n,
{
    if n < 10 {
        seq![spec_digit_char(n)]
    } else {
        spec_digits(n / 10) + seq![spec_digit_char(n % 10)]
    }
}

/// One decimal digit as text.
fn digit_str(d: u64) -> (r: String)
    requires
        d < 10,
    ensures
        r@ == seq![spec_digit_char(d as nat)],
{
    proof {
        reveal_strlit("0");
        reveal_strlit("1");
        reveal_strlit("2");
        reveal_strlit("3");
        reveal_strlit("4");
        reveal_strlit("5");
        reveal_strlit("6");
        reveal_strlit("7");
        reveal_strlit("8");
        reveal_strlit("9");
        assert("0"@ =~= seq!['0']);
        assert("1"@ =~= seq!['1']);
        assert("2"@ =~= seq!['2']);
        assert("3"@ =~= seq!['3']);
        assert("4"@ =~= seq!['4']);
        assert("5"@ =~= seq!['5']);
        assert("6"@ =~= seq!['6']);
        assert("7"@ =~= seq!['7']);
        assert("8"@ =~= seq!['8']);
        assert("9"@ =~= seq!['9']);
    }
    if d == 0 {
        String::from_str("0")
    } else if d == 1 {
        String::from_str("1")
    } else if d == 2 {
        String::from_str("2")
    } else if d == 3 {
        String::from_str("3")
    } else if d == 4 {
        String::from_str("4")
    } else if d == 5 {
        String::from_str("5")
    } else if d == 6 {
        String::from_str("6")
    } else if d == 7 {
        String::from_str("7")
    } else if d == 8 {
        String::from_str("8")
    } else {
        String::from_str("9")
    }
}

/// The decimal text of a number, most significant digit first.
pub fn u64_to_string(n: u64) -> (r: String)
    ensures
        r@ == spec_digits(n as nat),
    decreases n,
{
    if n < 10 {
        digit_str(n)
    } else {
        let mut s = u64_to_string(n / 10);
        let last = digit_str(n % 10);
        s.append(last.as_str());
        s
    }
}

/// The compact age text for an elapsed time in seconds: whole days,
/// else whole hours, else whole minutes, else seconds, each with its
/// unit letter.
pub open spec fn spec_age_text(secs: u64) -> Seq<char> {
    if secs >= 86400 {
        spec_digits((secs / 86400) as nat) + "d"@
    } else if secs >= 3600 {
        spec_digits((secs / 3600) as nat) + "h"@
    } else if secs >= 60 {
        spec_digits((secs / 60) as nat) + "m"@
    } else {
        spec_digits(secs as nat) + "s"@
    }
}

/// Renders the age of something created at `created`, seen at `now`,
/// both in seconds since the Unix epoch. A creation time in the future
/// counts as zero elapsed seconds.
pub fn age(now: u64, created: u64) -> (r: String)
    ensures
        r@ == spec_age_text(if created <= now {
            (now - created) as u64
        } else {
            0u64
        }),
{
    let secs: u64 = if created <= now {
        now - created
    } else {
        0
    };
    let mut out: String;
    if secs >= 86400 {
        out = u64_to_string(secs / 86400);
        out.append("d");
    } else if secs >= 3600 {
        out = u64_to_string(secs / 3600);
        out.append("h");
    } else if secs >= 60 {
        out = u64_to_string(secs / 60);
        out.append("m");
    } else {
        out = u64_to_string(secs);
        out.append("s");
    }
    out
}

} // verus!
