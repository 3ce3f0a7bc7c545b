//! Checking the header row of tabular input against the column vocabulary.

use vstd::prelude::*;

verus! {

/// Why a header row is refused.
#[derive(Debug)]
pub enum Error {
    MissingHeaders,
    IllegalHeader(String),
    MissingHeader(&'static str),
    DuplicateHeader(&'static str),
}

/// The abstract content of an [`Error`].
pub enum HeaderFault {
    MissingHeaders,
    IllegalHeader(Seq<char>),
    MissingHeader(Seq<char>),
    DuplicateHeader(Seq<char>),
}

impl View for Error {
    type V = HeaderFault;

    open spec fn view(&self) -> HeaderFault {
        match self {
            Error::MissingHeaders => HeaderFault::MissingHeaders,
            Error::IllegalHeader(h) => HeaderFault::IllegalHeader(h@),
            Error::MissingHeader(h) => HeaderFault::MissingHeader(h@),
            Error::DuplicateHeader(h) => HeaderFault::DuplicateHeader(h@),
        }
    }
}

/// The text of the diagnostic for a refused header row.
pub open spec fn fault_message(f: HeaderFault) -> Seq<char> {
    match f {
        HeaderFault::MissingHeaders => "Missing Headers!"@,
        HeaderFault::IllegalHeader(h) => "Illegal Header: '"@ + h + "'"@,
        HeaderFault::MissingHeader(h) => "Missing Required Header: '"@ + h + "'"@,
        HeaderFault::DuplicateHeader(h) => "Duplicate Header: '"@ + h + "'"@,
    }
}

impl Error {
    /// The diagnostic shown to the user.
    pub fn message(&self) -> (r: String)
        ensures
            r@ == fault_message(self@),
    {
        match self {
            Error::MissingHeaders => String::from_str("Missing Headers!"),
            Error::IllegalHeader(h) => String::from_str("Illegal Header: '").concat(h.as_str()).concat("'"),
            Error::MissingHeader(h) => String::from_str("Missing Required Header: '").concat(h).concat("'"),
            Error::DuplicateHeader(h) => String::from_str("Duplicate Header: '").concat(h).concat("'"),
        }
    }
}

/// The columns a header row may hold, in their canonical order.
pub open spec fn vocabulary() -> Seq<Seq<char>> {
    seq!["name"@, "tag"@, "count"@, "rarity"@, "price"@]
}

/// The column that every header row must hold.
pub open spec fn required_header() -> Seq<char> {
    "name"@
}

pub open spec fn is_known(h: Seq<char>) -> bool {
    vocabulary().contains(h)
}

/// How often `h` occurs in `hs`.
pub open spec fn occurrences(hs: Seq<Seq<char>>, h: Seq<char>) -> nat
    decreases hs.len(),
{
    if hs.len() == 0 {
        0
    } else {
        occurrences(hs.drop_last(), h) + if hs.last() == h { 1nat } else { 0nat }
    }
}

/// The first column of the vocabulary, from position `k` on, that occurs
/// more than once in `hs`.
pub open spec fn first_duplicate(hs: Seq<Seq<char>>, k: int) -> Option<Seq<char>>
    decreases 5 - k,
{
    if k < 0 || k >= 5 {
        None
    } else if occurrences(hs, vocabulary()[k]) > 1 {
        Some(vocabulary()[k])
    } else {
        first_duplicate(hs, k + 1)
    }
}

/// The first header, from position `i` on, that is not in the vocabulary.
pub open spec fn first_unknown(hs: Seq<Seq<char>>, i: int) -> Option<Seq<char>>
    decreases hs.len() - i,
{
    if i < 0 || i >= hs.len() {
        None
    } else if !is_known(hs[i]) {
        Some(hs[i])
    } else {
        first_unknown(hs, i + 1)
    }
}

/// The verdict on a header row: checks run in a fixed order (no known column
/// at all, the required column absent, a known column repeated, an unknown
/// column) and the first that fails is reported.
pub open spec fn header_fault(hs: Seq<Seq<char>>) -> Option<HeaderFault> {
    if forall|i: int| 0 <= i < hs.len() ==> !is_known(#[trigger] hs[i]) {
        Some(HeaderFault::MissingHeaders)
    } else if occurrences(hs, required_header()) == 0 {
        Some(HeaderFault::MissingHeader(required_header()))
    } else if first_duplicate(hs, 0) is Some {
        Some(HeaderFault::DuplicateHeader(first_duplicate(hs, 0)->Some_0))
    } else if first_unknown(hs, 0) is Some {
        Some(HeaderFault::IllegalHeader(first_unknown(hs, 0)->Some_0))
    } else {
        None
    }
}

proof fn lemma_first_unknown_skip(hs: Seq<Seq<char>>, k: int, i: int)
    requires
        0 <= k <= i,
        forall|j: int| k <= j < i ==> is_known(#[trigger] hs[j]),
    ensures
        first_unknown(hs, k) == first_unknown(hs, i),
    decreases i - k,
{
    if k < i {
        lemma_first_unknown_skip(hs, k + 1, i);
    }
}

/// How often `h` occurs among `headers`.
fn count_header(headers: &Vec<String>, h: &String) -> (c: usize)
    ensures
        c == occurrences(headers@.map_values(|s: String| s@), h@),
{
    let ghost hs = headers@.map_values(|s: String| s@);
    let mut c: usize = 0;
    let mut i: usize = 0;
    while i < headers.len()
        invariant
            i <= headers.len(),
            hs == headers@.map_values(|s: String| s@),
            c == occurrences(hs.take(i as int), h@),
            c <= i,
        decreases headers.len() - i,
    {
        assert(hs.take(i as int + 1).drop_last() == hs.take(i as int));
        if headers[i] == *h {
            c = c + 1;
        }
        i = i + 1;
    }
    assert(hs.take(i as int) == hs);
    c
}

/// The vocabulary as strings.
fn vocabulary_strings() -> (r: Vec<String>)
    ensures
        r@.map_values(|s: String| s@) == vocabulary(),
{
    let r = vec![
        String::from_str("name"),
        String::from_str("tag"),
        String::from_str("count"),
        String::from_str("rarity"),
        String::from_str("price"),
    ];
    assert(r@.map_values(|s: String| s@) =~= vocabulary());
    r
}

fn is_known_header(names: &Vec<String>, h: &String) -> (r: bool)
    requires
        names@.map_values(|s: String| s@) == vocabulary(),
    ensures
        r == is_known(h@),
{
    let ghost v = names@.map_values(|s: String| s@);
    let mut k: usize = 0;
    while k < names.len()
        invariant
            v == names@.map_values(|s: String| s@),
            v == vocabulary(),
            k <= names.len(),
            forall|j: int| 0 <= j < k ==> v[j] != h@,
        decreases names.len() - k,
    {
        if names[k] == *h {
            assert(v[k as int] == h@);
            return true;
        }
        k = k + 1;
    }
    false
}

proof fn lemma_first_duplicate_skip(hs: Seq<Seq<char>>, k: int, n: int)
    requires
        0 <= k <= n,
        forall|j: int| k <= j < n ==> occurrences(hs, #[trigger] vocabulary()[j]) <= 1,
    ensures
        first_duplicate(hs, k) == first_duplicate(hs, n),
    decreases n - k,
{
    if k < n {
        lemma_first_duplicate_skip(hs, k + 1, n);
    }
}

/// The column name of the vocabulary at position `k`.
fn vocabulary_name(k: usize) -> (r: &'static str)
    requires
        k < 5,
    ensures
        r@ == vocabulary()[k as int],
{
    if k == 0 {
        "name"
    } else if k == 1 {
        "tag"
    } else if k == 2 {
        "count"
    } else if k == 3 {
        "rarity"
    } else {
        "price"
    }
}

/// Checks a header row. The checks run in a fixed order and the first
/// failure is reported: no column of the vocabulary at all, then the `name`
/// column missing, then a column of the vocabulary repeated (the earliest in
/// the order `name, tag, count, rarity, price`), then the first column that
/// is not in the vocabulary.
pub fn sanitize_header(headers: &Vec<String>) -> (r: Result<(), Error>)
    ensures
        r is Ok <==> header_fault(headers@.map_values(|s: String| s@)) is None,
        r is Err ==> header_fault(headers@.map_values(|s: String| s@)) == Some(r->Err_0@),
{
    let ghost hs = headers@.map_values(|s: String| s@);
    let names = vocabulary_strings();
    let mut any_known = false;
    let mut i: usize = 0;
    while i < headers.len()
        invariant
            names@.map_values(|s: String| s@) == vocabulary(),
            hs == headers@.map_values(|s: String| s@),
            i <= headers.len(),
            !any_known ==> forall|j: int| 0 <= j < i ==> !is_known(#[trigger] hs[j]),
            any_known ==> exists|j: int| 0 <= j < hs.len() && is_known(#[trigger] hs[j]),
        decreases headers.len() - i,
    {
        if is_known_header(&names, &headers[i]) {
            assert(is_known(hs[i as int]));
            any_known = true;
        }
        i = i + 1;
    }
    if !any_known {
        return Err(Error::MissingHeaders);
    }
    if count_header(headers, &names[0]) == 0 {
        return Err(Error::MissingHeader("name"));
    }
    let mut k: usize = 0;
    while k < 5
        invariant
            names@.map_values(|s: String| s@) == vocabulary(),
            hs == headers@.map_values(|s: String| s@),
            names@.len() == 5,
            k <= 5,
            first_duplicate(hs, 0) == first_duplicate(hs, k as int),
            exists|j: int| 0 <= j < hs.len() && is_known(#[trigger] hs[j]),
            occurrences(hs, required_header()) > 0,
        decreases 5 - k,
    {
        if count_header(headers, &names[k]) > 1 {
            return Err(Error::DuplicateHeader(vocabulary_name(k)));
        }
        proof {
            lemma_first_duplicate_skip(hs, k as int, k + 1);
        }
        k = k + 1;
    }
    let mut i: usize = 0;
    while i < headers.len()
        invariant
            names@.map_values(|s: String| s@) == vocabulary(),
            hs == headers@.map_values(|s: String| s@),
            i <= headers.len(),
            first_unknown(hs, 0) == first_unknown(hs, i as int),
            exists|j: int| 0 <= j < hs.len() && is_known(#[trigger] hs[j]),
            occurrences(hs, required_header()) > 0,
            first_duplicate(hs, 0) is None,
        decreases headers.len() - i,
    {
        if !is_known_header(&names, &headers[i]) {
            return Err(Error::IllegalHeader(headers[i].clone()));
        }
        proof {
            lemma_first_unknown_skip(hs, i as int, i + 1);
        }
        i = i + 1;
    }
    Ok(())
}

} // verus!
