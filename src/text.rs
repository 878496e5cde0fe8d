use vstd::prelude::*;

verus! {

/// What `str::trim` makes of a text.
pub uninterp spec fn trimmed(s: Seq<char>) -> Seq<char>;

/// What chrono's `NaiveDate::parse_from_str(s, "%Y-%m-%d")` makes of a text,
/// taken as the UTC instant at midnight of that date, in seconds since the
/// Unix epoch; `None` where the text is not such a date.
pub uninterp spec fn parsed_date(s: Seq<char>) -> Option<i64>;

/// Relies on std's `str::trim`: the text with leading and trailing whitespace
/// removed.
pub assume_specification<'a>[ str::trim ](s: &'a str) -> (r: &'a str)
    ensures
        r@ == trimmed(s@),
;

/// Relies on std's `String::push`: the character is appended.
pub assume_specification[ String::push ](s: &mut String, ch: char)
    ensures
        final(s)@ == old(s)@.push(ch),
;

/// Relies on std's `String::pop`: the last character is removed and returned,
/// or `None` is returned and the string left as it is when it is empty.
pub assume_specification[ String::pop ](s: &mut String) -> (r: Option<char>)
    ensures
        old(s)@.len() == 0 ==> r is None && final(s)@ == old(s)@,
        old(s)@.len() > 0 ==> r == Some(old(s)@.last()) && final(s)@ == old(s)@.drop_last(),
;

/// Relies on chrono's `NaiveDate::parse_from_str` with the format
/// `"%Y-%m-%d"`, and on `NaiveDateTime::and_utc` and `DateTime::timestamp` to
/// turn the date at midnight into seconds since the Unix epoch.
#[verifier::external_body]
fn parse_ymd(s: &str) -> (r: Option<i64>)
    ensures
        r == parsed_date(s@),
{
    match chrono::NaiveDate::parse_from_str(s, "%Y-%m-%d") {
        Ok(d) => Some(d.and_time(chrono::NaiveTime::MIN).and_utc().timestamp()),
        Err(_) => None,
    }
}

/// The due date typed into a form: no due date for an empty text, else the
/// parsed date, or no due date when the text is not a `YYYY-MM-DD` date.
pub open spec fn due_date_of(s: Seq<char>) -> Option<i64> {
    if s.len() == 0 {
        None
    } else {
        parsed_date(s)
    }
}

/// Reads the due date typed into a form; see [`due_date_of`].
pub fn read_due_date(s: &String) -> (r: Option<i64>)
    ensures
        r == due_date_of(s@),
{
    if s.as_str().unicode_len() == 0 {
        None
    } else {
        parse_ymd(s.as_str())
    }
}

/// The pieces of `s` between occurrences of `sep`, as `str::split` gives them:
/// one piece for an empty text, and an empty piece next to each leading,
/// trailing or doubled separator.
pub open spec fn split_on(s: Seq<char>, sep: char) -> Seq<Seq<char>>
    decreases s.len(),
{
    if s.len() == 0 {
        seq![Seq::<char>::empty()]
    } else {
        let rest = split_on(s.drop_last(), sep);
        if s.last() == sep {
            rest.push(Seq::<char>::empty())
        } else {
            rest.update(rest.len() - 1, rest.last().push(s.last()))
        }
    }
}

/// Splitting always gives at least one piece.
pub proof fn lemma_split_nonempty(s: Seq<char>, sep: char)
    ensures
        split_on(s, sep).len() >= 1,
    decreases s.len(),
{
    if s.len() > 0 {
        lemma_split_nonempty(s.drop_last(), sep);
    }
}

/// The tags typed into a form: the text split at commas, each piece trimmed.
pub open spec fn tags_of(s: Seq<char>) -> Seq<Seq<char>> {
    split_on(s, ',').map_values(|p: Seq<char>| trimmed(p))
}

/// Splits the text at every occurrence of `sep`.
pub fn split_at_char(s: &String, sep: char) -> (r: Vec<String>)
    ensures
        crate::models::string_views(r@) == split_on(s@, sep),
{
    let n = s.as_str().unicode_len();
    let mut pieces: Vec<String> = Vec::new();
    let mut cur = String::new();
    let mut i: usize = 0;
    proof {
        assert(s@.take(0) =~= Seq::<char>::empty());
        assert(crate::models::string_views(pieces@).push(cur@) =~= split_on(s@.take(0), sep));
    }
    while i < n
        invariant
            n == s@.len(),
            i <= n,
            crate::models::string_views(pieces@).push(cur@) == split_on(s@.take(i as int), sep),
        decreases n - i,
    {
        let c = s.as_str().get_char(i);
        proof {
            assert(s@.take(i + 1).drop_last() =~= s@.take(i as int));
            lemma_split_nonempty(s@.take(i as int), sep);
        }
        let ghost before = crate::models::string_views(pieces@);
        if c == sep {
            let done = cur;
            pieces.push(done);
            cur = String::new();
            proof {
                assert(crate::models::string_views(pieces@) =~= before.push(done@));
                assert(crate::models::string_views(pieces@).push(cur@) =~= split_on(
                    s@.take(i + 1),
                    sep,
                ));
            }
        } else {
            let ghost prev = cur@;
            cur.push(c);
            proof {
                assert(crate::models::string_views(pieces@).push(cur@) =~= before.push(
                    prev,
                ).update(before.len() as int, prev.push(c)));
            }
        }
        i += 1;
    }
    assert(s@.take(n as int) =~= s@);
    let ghost before = crate::models::string_views(pieces@);
    pieces.push(cur);
    assert(crate::models::string_views(pieces@) =~= before.push(cur@));
    pieces
}

/// The tags typed into a form; see [`tags_of`].
pub fn read_tags(s: &String) -> (r: Vec<String>)
    ensures
        crate::models::string_views(r@) == tags_of(s@),
{
    let pieces = split_at_char(s, ',');
    let mut r: Vec<String> = Vec::new();
    let mut i: usize = 0;
    while i < pieces.len()
        invariant
            i <= pieces.len(),
            crate::models::string_views(pieces@) == split_on(s@, ','),
            crate::models::string_views(r@) == tags_of(s@).take(i as int),
        decreases pieces.len() - i,
    {
        let t = pieces[i].as_str().trim().to_owned();
        proof {
            assert(pieces@[i as int]@ == split_on(s@, ',')[i as int]);
        }
        let ghost before = crate::models::string_views(r@);
        r.push(t);
        proof {
            assert(crate::models::string_views(r@) =~= before.push(t@));
            assert(tags_of(s@).take(i + 1) =~= tags_of(s@).take(i as int).push(t@));
        }
        i += 1;
    }
    assert(tags_of(s@).take(i as int) =~= tags_of(s@));
    r
}

} // verus!
