use vstd::prelude::*;

verus! {

/// A non-fatal advisory returned by a calculator.
pub struct CalcWarning {
    pub text: String,
}

impl CalcWarning {
    pub fn from(s: &str) -> (r: CalcWarning)
        ensures
            r.text@ == s@,
    {
        CalcWarning { text: s.to_owned() }
    }
}

/// A calculator's title and description.
pub struct CalcInfo {
    pub title: &'static str,
    pub description: &'static str,
}

/// The operations of the demo calculator.
#[derive(Clone, Copy, Debug, PartialEq, Eq, Structural)]
pub enum DemoMode {
    Add,
    Sub,
    Mul,
    Div,
}

/// A demo calculator: adds, subtracts, multiplies or divides two numbers.
pub struct DemoCalc;

/// Whether two strings hold the same characters.
fn same_text(a: &str, b: &str) -> (r: bool)
    ensures
        r == (a@ == b@),
{
    let n = a.unicode_len();
    if n != b.unicode_len() {
        return false;
    }
    let mut i: usize = 0;
    while i < n
        invariant
            i <= n,
            n == a@.len(),
            n == b@.len(),
            forall|j: int| 0 <= j < i ==> a@[j] == b@[j],
        decreases n - i,
    {
        if a.get_char(i) != b.get_char(i) {
            return false;
        }
        i = i + 1;
    }
    assert(a@ =~= b@);
    true
}

impl DemoCalc {
    /// The mode a selector names.
    pub open spec fn mode_spec(s: Seq<char>) -> Option<DemoMode> {
        if s == seq!['a', 'd', 'd'] {
            Some(DemoMode::Add)
        } else if s == seq!['s', 'u', 'b'] {
            Some(DemoMode::Sub)
        } else if s == seq!['m', 'u', 'l'] {
            Some(DemoMode::Mul)
        } else if s == seq!['d', 'i', 'v'] {
            Some(DemoMode::Div)
        } else {
            None
        }
    }

    /// Reads the mode selector; any other text is the fatal error "Invalid mode".
    pub fn select_mode(&self, s: &str) -> (r: Result<DemoMode, String>)
        ensures
            match DemoCalc::mode_spec(s@) {
                Some(m) => r == Ok::<DemoMode, String>(m),
                None => r is Err && r->Err_0@ == "Invalid mode"@,
            },
    {
        proof {
            reveal_strlit("add");
            reveal_strlit("sub");
            reveal_strlit("mul");
            reveal_strlit("div");
            assert("add"@ =~= seq!['a', 'd', 'd']);
            assert("sub"@ =~= seq!['s', 'u', 'b']);
            assert("mul"@ =~= seq!['m', 'u', 'l']);
            assert("div"@ =~= seq!['d', 'i', 'v']);
        }
        if same_text(s, "add") {
            Ok(DemoMode::Add)
        } else if same_text(s, "sub") {
            Ok(DemoMode::Sub)
        } else if same_text(s, "mul") {
            Ok(DemoMode::Mul)
        } else if same_text(s, "div") {
            Ok(DemoMode::Div)
        } else {
            Err("Invalid mode".to_owned())
        }
    }

    pub fn get_info(&self) -> (r: CalcInfo)
        ensures
            r.title@ == "DEMO CALCULATOR"@,
            r.description@ == "A demo calculator. The modes are add, sub, mul, and div.\n"@,
    {
        CalcInfo {
            title: "DEMO CALCULATOR",
            description: "A demo calculator. The modes are add, sub, mul, and div.\n",
        }
    }
}

} // verus!
