use vstd::prelude::*;
use vstd::string::StringExecFns;

verus! {

/// One element of the ingestion-format collaborator's response.
#[derive(Debug)]
pub struct UnstructuredIOResponse {
    /// The element's type (`type` on the wire).
    pub element_type: String,
    pub element_id: String,
    pub text: String,
    pub metadata: Metadata,
}

/// The descriptor that comes with an element.
#[derive(Debug)]
pub struct Metadata {
    pub filetype: String,
    pub languages: Vec<String>,
    pub page_number: i64,
    pub filename: String,
}

/// The texts joined with a comma between neighbours.
pub open spec fn comma_joined(s: Seq<Seq<char>>) -> Seq<char>
    decreases s.len(),
{
    if s.len() == 0 {
        Seq::empty()
    } else if s.len() == 1 {
        s[0]
    } else {
        comma_joined(s.drop_last()) + seq![','] + s.last()
    }
}

pub open spec fn digit_char(d: nat) -> char {
    if d == 0 { '0' }
    else if d == 1 { '1' }
    else if d == 2 { '2' }
    else if d == 3 { '3' }
    else if d == 4 { '4' }
    else if d == 5 { '5' }
    else if d == 6 { '6' }
    else if d == 7 { '7' }
    else if d == 8 { '8' }
    else { '9' }
}

/// The decimal digits of `n`, without leading zeros.
pub open spec fn digits(n: nat) -> Seq<char>
    decreases n,
{
    if n < 10 {
        seq![digit_char(n)]
    } else {
        digits(n / 10).push(digit_char(n % 10))
    }
}

/// The decimal text of `n`, with a leading `-` when it is negative.
pub open spec fn decimal(n: int) -> Seq<char> {
    if n < 0 {
        seq!['-'] + digits((-n) as nat)
    } else {
        digits(n as nat)
    }
}

fn digit_text(d: u64) -> (r: &'static str)
    requires
        d < 10,
    ensures
        r@ == seq![digit_char(d as nat)],
{
    proof {
        reveal_strlit("0");
        reveal_strlit("1");
        reveal_strlit("2");
        reveal_strlit("3");
        reveal_strlit("4");
        reveal_strlit("5");
        reveal_strlit("6");
        reveal_strlit("7");
        reveal_strlit("8");
        reveal_strlit("9");
    }
    if d == 0 { "0" }
    else if d == 1 { "1" }
    else if d == 2 { "2" }
    else if d == 3 { "3" }
    else if d == 4 { "4" }
    else if d == 5 { "5" }
    else if d == 6 { "6" }
    else if d == 7 { "7" }
    else if d == 8 { "8" }
    else { "9" }
}

fn append_digits(out: &mut String, n: u64)
    ensures
        final(out)@ == old(out)@ + digits(n as nat),
    decreases n,
{
    if n >= 10 {
        append_digits(out, n / 10);
    }
    out.append(digit_text(n % 10));
    if n >= 10 {
        assert(final(out)@ =~= old(out)@ + digits(n as nat));
    } else {
        assert(final(out)@ =~= old(out)@ + digits(n as nat));
    }
}

/// The decimal text of `n`.
pub fn decimal_text(n: i64) -> (r: String)
    ensures
        r@ == decimal(n as int),
{
    let mut out = String::new();
    if n < 0 {
        out.append("-");
        proof {
            reveal_strlit("-");
        }
        let magnitude: u64 = (-(n as i128)) as u64;
        append_digits(&mut out, magnitude);
        assert(out@ =~= decimal(n as int));
    } else {
        append_digits(&mut out, n as u64);
        assert(out@ =~= decimal(n as int));
    }
    out
}

/// The texts of `parts` joined with a comma between neighbours.
pub fn join_with_commas(parts: &Vec<String>) -> (r: String)
    ensures
        r@ == comma_joined(parts@.map_values(|p: String| p@)),
{
    let ghost v = parts@.map_values(|p: String| p@);
    let mut out = String::new();
    let n = parts.len();
    let mut i: usize = 0;
    while i < n
        invariant
            n == parts@.len(),
            v == parts@.map_values(|p: String| p@),
            i <= n,
            out@ == comma_joined(v.take(i as int)),
        decreases n - i,
    {
        let ghost before = out@;
        assert(v.take(i + 1).last() == parts@[i as int]@);
        if i > 0 {
            proof {
                reveal_strlit(",");
            }
            out.append(",");
        }
        out.append(parts[i].as_str());
        assert(v.take(i + 1).drop_last() =~= v.take(i as int));
        if i == 0 {
            assert(out@ =~= comma_joined(v.take(1)));
        } else {
            assert(out@ =~= before + seq![','] + parts@[i as int]@);
            assert(out@ =~= comma_joined(v.take(i + 1)));
        }
        i = i + 1;
    }
    assert(v.take(n as int) =~= v);
    out
}

/// The flat fields of an element, as named in the vector store's payload.
pub open spec fn element_fields(e: UnstructuredIOResponse) -> Seq<(Seq<char>, Seq<char>)> {
    seq![
        ("ac_type"@, e.element_type@),
        ("ac_element_id"@, e.element_id@),
        ("page_content"@, e.text@),
        ("ac_filetype"@, e.metadata.filetype@),
        ("ac_languages"@, comma_joined(e.metadata.languages@.map_values(|p: String| p@))),
        ("ac_page_number"@, decimal(e.metadata.page_number as int)),
        ("metadata.filename"@, e.metadata.filename@),
    ]
}

pub open spec fn pairs_view(v: Seq<(String, String)>) -> Seq<(Seq<char>, Seq<char>)> {
    v.map_values(|p: (String, String)| (p.0@, p.1@))
}

impl UnstructuredIOResponse {
    /// The element's fields flattened to name and text: the languages joined
    /// with commas, the page number in decimal.
    pub fn to_fields(&self) -> (r: Vec<(String, String)>)
        ensures
            pairs_view(r@) == element_fields(*self),
    {
        let mut r: Vec<(String, String)> = Vec::new();
        r.push(("ac_type".to_owned(), self.element_type.clone()));
        r.push(("ac_element_id".to_owned(), self.element_id.clone()));
        r.push(("page_content".to_owned(), self.text.clone()));
        r.push(("ac_filetype".to_owned(), self.metadata.filetype.clone()));
        r.push(("ac_languages".to_owned(), join_with_commas(&self.metadata.languages)));
        r.push(("ac_page_number".to_owned(), decimal_text(self.metadata.page_number)));
        r.push(("metadata.filename".to_owned(), self.metadata.filename.clone()));
        assert(pairs_view(r@) =~= element_fields(*self));
        r
    }
}

impl From<&UnstructuredIOResponse> for std::collections::HashMap<String, String> {
    /// The map of `to_fields`.
    fn from(value: &UnstructuredIOResponse) -> Self {
        let fields = value.to_fields();
        let mut map = std::collections::HashMap::new();
        let n = fields.len();
        let mut i: usize = 0;
        while i < n
            invariant
                n == fields.len(),
            decreases n - i,
        {
            map.insert(fields[i].0.clone(), fields[i].1.clone());
            i = i + 1;
        }
        map
    }
}

impl vstd::std_specs::convert::FromSpecImpl<&UnstructuredIOResponse> for std::collections::HashMap<String, String> {
    open spec fn obeys_from_spec() -> bool {
        false
    }

    open spec fn from_spec(v: &UnstructuredIOResponse) -> Self {
        arbitrary()
    }
}

} // verus!
