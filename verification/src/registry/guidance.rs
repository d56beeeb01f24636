//! Guidance documents: how they are named, filed and moderated.
use vstd::prelude::*;

use crate::registry::{RegistryError, RegistryFault};
use crate::text::{
    alphanumeric, ascii, ascii_lower, ascii_text, blank, chars_of, contains, contents_ref,
    copy_texts, is_blank, join, joined, law_lowercase_is_idempotent, lemma_trimmed_id, lemma_trimmed_part,
    list_contains, lowercased, occurs, pieces, split, stands_at, text_between, text_eq, texts, trim, trimmed,
    white_space,
};

verus! {

/// A guidance document.
#[derive(Debug)]
pub struct Guidance {
    pub slug: String,
    pub title: String,
    pub summary: String,
    pub body: String,
    pub tags: Vec<String>,
    pub author: String,
    /// `pending` until an admin publishes it, then `published`.
    pub status: String,
    pub category: String,
    pub updated_at: String,
}

/// The categories a document may be filed under.
pub open spec fn category_names() -> Seq<Seq<char>> {
    seq!["best-practice"@, "guide"@, "reference"@]
}

/// The categories a document may be filed under.
pub fn categories() -> (r: Vec<String>)
    ensures
        texts(r@) == category_names(),
{
    let v = vec!["best-practice".to_owned(), "guide".to_owned(), "reference".to_owned()];
    assert(texts(v@) =~= category_names());
    v
}

/// The letters and numbers of a text, with one dash for each gap between them.
/// A gap at the end still shows as a dash.
pub open spec fn dashed(s: Seq<char>) -> Seq<char>
    decreases s.len(),
{
    if s.len() == 0 {
        Seq::empty()
    } else {
        let head = dashed(s.drop_last());
        if alphanumeric(s.last()) {
            head.push(s.last())
        } else if head.len() == 0 || head.last() == '-' {
            head
        } else {
            head.push('-')
        }
    }
}

/// The slug of a title: its letters and numbers in lowercase, with one dash for
/// each gap between them.
pub open spec fn slug_of(s: Seq<char>) -> Seq<char> {
    let d = dashed(lowercased(trimmed(s)));
    if d.len() > 0 && d.last() == '-' {
        d.drop_last()
    } else {
        d
    }
}

/// A text fit for a url: letters, numbers and single dashes between them.
pub open spec fn slug_shape(s: Seq<char>) -> bool {
    &&& forall|i: int| 0 <= i < s.len() ==> alphanumeric(#[trigger] s[i]) || s[i] == '-'
    &&& s.len() > 0 ==> s[0] != '-' && s[s.len() - 1] != '-'
    &&& forall|i: int| 0 < i < s.len() && #[trigger] s[i] == '-' ==> s[i - 1] != '-'
}

/// Derives a url-safe slug from a title.
pub fn slugify(s: &str) -> (r: String)
    ensures
        r@ == slug_of(s@),
        slug_shape(r@),
{
    let t = trim(s);
    let lc = t.as_str().to_lowercase();
    let cs = chars_of(lc.as_str());
    let mut out: Vec<char> = Vec::new();
    let mut prev_dash = false;
    let mut i: usize = 0;
    while i < cs.len()
        invariant
            i <= cs@.len(),
            out@ == dashed(cs@.take(i as int)),
            prev_dash == (out@.len() > 0 && out@.last() == '-'),
            out@.len() > 0 ==> out@[0] != '-',
            forall|k: int| 0 <= k < out@.len() ==> alphanumeric(#[trigger] out@[k]) || out@[k]
                == '-',
            forall|k: int| 0 < k < out@.len() && #[trigger] out@[k] == '-' ==> out@[k - 1] != '-',
        decreases cs.len() - i,
    {
        assert(cs@.take(i + 1).drop_last() =~= cs@.take(i as int));
        let c = cs[i];
        if c.is_alphanumeric() {
            out.push(c);
            prev_dash = false;
        } else if !prev_dash && !out.is_empty() {
            out.push('-');
            prev_dash = true;
        }
        i = i + 1;
    }
    assert(cs@.take(cs@.len() as int) =~= cs@);
    let end: usize = if prev_dash {
        out.len() - 1
    } else {
        out.len()
    };
    assert(out@.subrange(0, end as int) =~= slug_of(s@));
    text_between(&out, 0, end)
}

/// The letters and numbers of a text, in their order.
pub open spec fn letters_of(s: Seq<char>) -> Seq<char>
    decreases s.len(),
{
    if s.len() == 0 {
        Seq::empty()
    } else if alphanumeric(s.last()) {
        letters_of(s.drop_last()).push(s.last())
    } else {
        letters_of(s.drop_last())
    }
}

/// The words of a text: its runs of letters and numbers, in their order.
pub open spec fn words_of(s: Seq<char>) -> Seq<Seq<char>>
    decreases s.len(),
{
    if s.len() == 0 {
        Seq::empty()
    } else {
        let rest = words_of(s.drop_last());
        if !alphanumeric(s.last()) {
            rest
        } else if s.len() > 1 && alphanumeric(s[s.len() - 2]) {
            rest.drop_last().push(rest.last().push(s.last()))
        } else {
            rest.push(seq![s.last()])
        }
    }
}

proof fn lemma_words(s: Seq<char>)
    ensures
        dashed(s) == if words_of(s).len() > 0 && !alphanumeric(s.last()) {
            joined(words_of(s), "-"@).push('-')
        } else {
            joined(words_of(s), "-"@)
        },
        s.len() > 0 && alphanumeric(s.last()) ==> words_of(s).len() > 0,
        words_of(s).len() > 0 ==> joined(words_of(s), "-"@).len() > 0 && joined(
            words_of(s),
            "-"@,
        ).last() != '-',
    decreases s.len(),
{
    reveal_strlit("-");
    if s.len() > 0 {
        let t = s.drop_last();
        let w = words_of(t);
        let all = words_of(s);
        let c = s.last();
        lemma_words(t);
        if alphanumeric(c) {
            if s.len() > 1 && alphanumeric(s[s.len() - 2]) {
                assert(t.last() == s[s.len() - 2]);
                assert(all.drop_last() =~= w.drop_last());
                assert(all.last() =~= w.last().push(c));
                if w.len() == 1 {
                    assert(joined(all, "-"@) =~= joined(w, "-"@).push(c));
                } else {
                    assert(joined(all, "-"@) =~= joined(w, "-"@).push(c));
                }
            } else {
                assert(t.len() > 0 ==> t.last() == s[s.len() - 2]);
                assert(all.drop_last() =~= w);
                if w.len() == 0 {
                    assert(joined(all, "-"@) =~= dashed(t).push(c));
                } else {
                    assert(joined(all, "-"@) =~= joined(w, "-"@).push('-').push(c));
                }
            }
        }
    }
}

/// A slug is the words of the title in lowercase, with one dash between neighbours.
pub proof fn law_slug_is_the_words(s: Seq<char>)
    ensures
        slug_of(s) == joined(words_of(lowercased(trimmed(s))), "-"@),
{
    let l = lowercased(trimmed(s));
    lemma_words(l);
    let j = joined(words_of(l), "-"@);
    assert(j.push('-').drop_last() =~= j);
}

proof fn lemma_letters_dashed(s: Seq<char>)
    ensures
        letters_of(dashed(s)) == letters_of(s),
    decreases s.len(),
{
    if s.len() > 0 {
        let head = dashed(s.drop_last());
        lemma_letters_dashed(s.drop_last());
        assert(head.push(s.last()).drop_last() =~= head);
        assert(head.push('-').drop_last() =~= head);
    }
}

proof fn lemma_dashed_shape(s: Seq<char>)
    ensures
        dashed(s).len() > 0 ==> dashed(s)[0] != '-',
        forall|i: int|
            0 <= i < dashed(s).len() ==> (#[trigger] dashed(s)[i] == '-' || (alphanumeric(
                dashed(s)[i],
            ) && s.contains(dashed(s)[i]))),
        forall|i: int|
            0 < i < dashed(s).len() && #[trigger] dashed(s)[i] == '-' ==> dashed(s)[i - 1] != '-',
    decreases s.len(),
{
    if s.len() > 0 {
        let t = s.drop_last();
        let head = dashed(t);
        lemma_dashed_shape(t);
        assert forall|i: int| 0 <= i < dashed(s).len() implies (#[trigger] dashed(s)[i] == '-' || (
        alphanumeric(dashed(s)[i]) && s.contains(dashed(s)[i]))) by {
            if i < head.len() {
                assert(dashed(s)[i] == head[i]);
                if head[i] != '-' {
                    let j = choose|j: int| 0 <= j < t.len() && t[j] == head[i];
                    assert(s[j] == head[i]);
                }
            } else if alphanumeric(s.last()) {
                assert(s[s.len() - 1] == s.last());
            }
        }
        assert forall|i: int|
            0 < i < dashed(s).len() && #[trigger] dashed(s)[i] == '-' implies dashed(s)[i - 1]
            != '-' by {
            if i < head.len() {
                assert(dashed(s)[i] == head[i] && dashed(s)[i - 1] == head[i - 1]);
            }
        }
    }
}

proof fn lemma_letters_exist(s: Seq<char>, i: int)
    requires
        0 <= i < s.len(),
        alphanumeric(s[i]),
    ensures
        letters_of(s).len() > 0,
    decreases s.len(),
{
    if i < s.len() - 1 {
        lemma_letters_exist(s.drop_last(), i);
    }
}

/// A slug keeps the letters and numbers of the title in lowercase, in their order,
/// and is empty exactly where there are none.
pub proof fn law_slug_keeps_the_letters(s: Seq<char>)
    ensures
        slug_shape(slug_of(s)),
        letters_of(slug_of(s)) == letters_of(lowercased(trimmed(s))),
        slug_of(s).len() == 0 <==> letters_of(lowercased(trimmed(s))).len() == 0,
{
    let l = lowercased(trimmed(s));
    let d = dashed(l);
    let r = slug_of(s);
    lemma_letters_dashed(l);
    lemma_dashed_shape(l);
    if d.len() > 0 && d.last() == '-' {
        assert(d[d.len() - 1] == '-');
    }
    assert forall|i: int| 0 <= i < r.len() implies #[trigger] r[i] == d[i] by {}
    assert forall|i: int| 0 < i < r.len() && #[trigger] r[i] == '-' implies r[i - 1] != '-' by {
        assert(d[i] == r[i] && d[i - 1] == r[i - 1]);
    }
    assert forall|i: int| 0 <= i < r.len() implies alphanumeric(#[trigger] r[i]) || r[i]
        == '-' by {
        assert(d[i] == r[i]);
    }
    if r.len() > 0 {
        assert(r[0] == d[0]);
        assert(alphanumeric(r[0]));
        lemma_letters_exist(r, 0);
    }
}

proof fn lemma_letters_small(s: Seq<char>)
    requires
        ascii_text(s),
    ensures
        ascii_text(letters_of(s)),
        letters_of(lowercased(s)) == lowercased(letters_of(s)),
    decreases s.len(),
{
    let l = lowercased(s);
    if s.len() > 0 {
        let t = s.drop_last();
        assert forall|i: int| 0 <= i < t.len() implies ascii(#[trigger] t[i]) by {
            assert(t[i] == s[i]);
        }
        lemma_letters_small(t);
        let k = letters_of(t);
        assert(l.drop_last() =~= lowercased(t));
        assert(ascii(s[s.len() - 1]));
        assert(l.last() == ascii_lower(s.last()));
        if alphanumeric(s.last()) {
            assert forall|i: int| 0 <= i < letters_of(s).len() implies ascii(
                #[trigger] letters_of(s)[i],
            ) by {
                if i < k.len() {
                    assert(letters_of(s)[i] == k[i]);
                }
            }
            assert(lowercased(letters_of(s)) =~= lowercased(k).push(ascii_lower(s.last())));
        }
    } else {
        assert(l =~= Seq::empty());
        assert(lowercased(letters_of(s)) =~= Seq::empty());
    }
}

proof fn lemma_letters_outside(s: Seq<char>, a: int, b: int)
    requires
        0 <= a <= b <= s.len(),
        forall|i: int| 0 <= i < a || b <= i < s.len() ==> !alphanumeric(#[trigger] s[i]),
    ensures
        letters_of(s) == letters_of(s.subrange(a, b)),
    decreases s.len(),
{
    let part = s.subrange(a, b);
    if s.len() == 0 {
        assert(part =~= s);
    } else if b < s.len() {
        let t = s.drop_last();
        assert(!alphanumeric(s[s.len() - 1]));
        assert forall|i: int| 0 <= i < a || b <= i < t.len() implies !alphanumeric(
            #[trigger] t[i],
        ) by {
            assert(t[i] == s[i]);
        }
        lemma_letters_outside(t, a, b);
        assert(t.subrange(a, b) =~= part);
    } else if a < b {
        let t = s.drop_last();
        assert forall|i: int| 0 <= i < a || b - 1 <= i < t.len() implies !alphanumeric(
            #[trigger] t[i],
        ) by {
            assert(t[i] == s[i]);
        }
        lemma_letters_outside(t, a, b - 1);
        assert(part.drop_last() =~= t.subrange(a, b - 1));
        assert(part.last() == s.last());
    } else {
        let t = s.drop_last();
        assert(!alphanumeric(s[s.len() - 1]));
        assert forall|i: int| 0 <= i < b - 1 || b - 1 <= i < t.len() implies !alphanumeric(
            #[trigger] t[i],
        ) by {
            assert(t[i] == s[i]);
        }
        lemma_letters_outside(t, b - 1, b - 1);
        assert(part =~= Seq::empty());
        assert(t.subrange(b - 1, b - 1) =~= Seq::empty());
    }
}

/// Of an ASCII title the slug holds small letters, digits and dashes only, its
/// letters and digits are those of the title made small, and it is its own slug.
pub proof fn law_ascii_slug_is_its_own_slug(s: Seq<char>)
    requires
        ascii_text(s),
    ensures
        forall|i: int|
            0 <= i < slug_of(s).len() ==> 'a' <= #[trigger] slug_of(s)[i] <= 'z' || '0'
                <= slug_of(s)[i] <= '9' || slug_of(s)[i] == '-',
        letters_of(slug_of(s)) == lowercased(letters_of(s)),
        slug_of(slug_of(s)) == slug_of(s),
{
    lemma_trimmed_part(s);
    let (a, b) = choose|a: int, b: int|
        0 <= a <= b <= s.len() && trimmed(s) == #[trigger] s.subrange(a, b) && (forall|i: int|
            0 <= i < a || b <= i < s.len() ==> white_space(#[trigger] s[i]));
    let t = trimmed(s);
    assert forall|i: int| 0 <= i < t.len() implies ascii(#[trigger] t[i]) by {
        assert(t[i] == s[a + i]);
    }
    assert forall|i: int| 0 <= i < a || b <= i < s.len() implies !alphanumeric(
        #[trigger] s[i],
    ) by {
        assert(white_space(s[i]) && ascii(s[i]));
    }
    lemma_letters_outside(s, a, b);
    lemma_letters_small(t);
    law_lowercase_is_idempotent(t);
    law_slug_keeps_the_letters(s);
    let l = lowercased(t);
    let r = slug_of(s);
    lemma_dashed_shape(l);
    assert forall|i: int| 0 <= i < r.len() implies 'a' <= #[trigger] r[i] <= 'z' || '0' <= r[i]
        <= '9' || r[i] == '-' by {
        assert(dashed(l)[i] == r[i]);
        if r[i] != '-' {
            let j = choose|j: int| 0 <= j < l.len() && l[j] == r[i];
            assert(ascii(l[j]));
        }
    }
    assert(ascii_text(r));
    assert(lowercased(r) =~= r);
    lemma_trimmed_id(r);
    lemma_dashed_id(r, r.len() as int);
    assert(r.take(r.len() as int) =~= r);
}

proof fn lemma_dashed_id(s: Seq<char>, n: int)
    requires
        slug_shape(s),
        0 <= n <= s.len(),
    ensures
        dashed(s.take(n)) == s.take(n),
    decreases n,
{
    if n > 0 {
        lemma_dashed_id(s, n - 1);
        let p = s.take(n);
        assert(p.drop_last() =~= s.take(n - 1));
        assert(p.last() == s[n - 1]);
        assert(p =~= s.take(n - 1).push(s[n - 1]));
        if n > 1 {
            assert(s.take(n - 1).last() == s[n - 2]);
        }
    } else {
        assert(s.take(0) =~= Seq::empty());
    }
}

/// The slug a document is filed under: that of the given slug, or of the title
/// where none is given.
pub open spec fn filed_under(slug: Option<Seq<char>>, title: Seq<char>) -> Seq<char> {
    match slug {
        Some(s) => if blank(s) {
            slug_of(title)
        } else {
            slug_of(s)
        },
        None => slug_of(title),
    }
}

/// The slug a document is filed under.
pub fn document_slug(slug: Option<&str>, title: &str) -> (r: String)
    ensures
        r@ == filed_under(
            contents_ref(slug),
            title@,
        ),
{
    match slug {
        Some(s) => {
            if is_blank(s) {
                slugify(title)
            } else {
                slugify(s)
            }
        },
        None => slugify(title),
    }
}

/// The state a submission is filed in.
pub open spec fn moderation(published: bool) -> Seq<char> {
    if published {
        "published"@
    } else {
        "pending"@
    }
}

/// The state a submission is filed in.
pub fn submission_status(published: bool) -> (r: String)
    ensures
        r@ == moderation(published),
{
    if published {
        "published".to_owned()
    } else {
        "pending".to_owned()
    }
}

/// The category a document is filed under; the neutral one for a blank.
pub open spec fn filed_category(category: Seq<char>) -> Seq<char> {
    if blank(category) {
        "guide"@
    } else {
        category
    }
}

/// Files a guidance document: checks its name and category and returns it as it
/// is stored.
pub fn put(
    slug: Option<&str>,
    title: &str,
    summary: &str,
    body: &str,
    tags: &Vec<String>,
    author: &str,
    published: bool,
    category: &str,
    now: &str,
) -> (r: Result<Guidance, RegistryError>)
    ensures
        ({
            let name = filed_under(
                contents_ref(slug),
                title@,
            );
            if name.len() == 0 {
                r matches Err(e) && e@ == RegistryFault::Validation(
                    "guidance needs a title or slug"@,
                )
            } else if !category_names().contains(filed_category(category@)) {
                r matches Err(e) && e@ == RegistryFault::Validation(
                    "unknown guidance category '"@ + filed_category(category@) + "'"@,
                )
            } else {
                r matches Ok(g) && g.slug@ == name && g.title@ == title@ && g.summary@ == summary@
                    && g.body@ == body@ && texts(g.tags@) == texts(tags@) && g.author@ == author@
                    && g.status@ == moderation(published) && g.category@ == filed_category(
                    category@,
                ) && g.updated_at@ == now@
            }
        }),
{
    let slug = document_slug(slug, title);
    if slug.as_str().is_empty() {
        return Err(RegistryError::validation("guidance needs a title or slug"));
    }
    let category = if is_blank(category) {
        "guide"
    } else {
        category
    };
    let known = categories();
    if !list_contains(&known, category) {
        let mut m = "unknown guidance category '".to_owned();
        m.append(category);
        m.append("'");
        return Err(RegistryError::Validation(m));
    }
    Ok(
        Guidance {
            slug,
            title: title.to_owned(),
            summary: summary.to_owned(),
            body: body.to_owned(),
            tags: copy_texts(tags),
            author: author.to_owned(),
            status: submission_status(published),
            category: category.to_owned(),
            updated_at: now.to_owned(),
        },
    )
}

/// Whether a reader sees a document: readers see what is published, editors
/// the drafts too; a category narrows the view.
pub open spec fn listed(
    status: Seq<char>,
    category: Seq<char>,
    include_pending: bool,
    wanted: Option<Seq<char>>,
) -> bool {
    (include_pending || status == "published"@) && (wanted matches Some(c) ==> category == c)
}

/// Whether a reader sees a document.
pub fn is_listed(g: &Guidance, include_pending: bool, category: Option<&str>) -> (r: bool)
    ensures
        r == listed(
            g.status@,
            g.category@,
            include_pending,
            contents_ref(category),
        ),
{
    if !include_pending && !text_eq(g.status.as_str(), "published") {
        return false;
    }
    match category {
        Some(c) => text_eq(g.category.as_str(), c),
        None => true,
    }
}

/// Whether a search finds a document: what is sought stands somewhere in the heading,
/// the summary and the text, capital letters counting as small ones. Without a search
/// every document is found.
pub open spec fn found(
    heading: Seq<char>,
    summary: Seq<char>,
    body: Seq<char>,
    search: Option<Seq<char>>,
) -> bool {
    search matches Some(q) ==> occurs(
        lowercased(heading + " "@ + summary + " "@ + body),
        lowercased(q),
    )
}

/// Whether a search finds a document.
pub fn is_found(heading: &str, summary: &str, body: &str, search: Option<&str>) -> (r: bool)
    ensures
        r == found(heading@, summary@, body@, contents_ref(search)),
{
    match search {
        Some(q) => {
            let mut all = heading.to_owned();
            all.append(" ");
            all.append(summary);
            all.append(" ");
            all.append(body);
            let within = all.as_str().to_lowercase();
            let sought = q.to_lowercase();
            contains(within.as_str(), sought.as_str())
        },
        None => true,
    }
}

/// A search does not tell the capital letters of what is sought from small ones.
pub proof fn law_search_ignores_case(
    heading: Seq<char>,
    summary: Seq<char>,
    body: Seq<char>,
    q: Seq<char>,
)
    requires
        ascii_text(q),
    ensures
        found(heading, summary, body, Some(q)) == found(
            heading,
            summary,
            body,
            Some(lowercased(q)),
        ),
{
    law_lowercase_is_idempotent(q);
}

/// The audited verb of a write.
pub fn write_action(existed: bool) -> (r: &'static str)
    ensures
        r@ == if existed {
            "updated"@
        } else {
            "created"@
        },
{
    if existed {
        "updated"
    } else {
        "created"
    }
}

// ---------------------------------------------------------------------------
// Tags
// ---------------------------------------------------------------------------

/// The tags that a list of pieces holds: each trimmed, blanks left out.
pub open spec fn tags_in(parts: Seq<Seq<char>>) -> Seq<Seq<char>>
    decreases parts.len(),
{
    if parts.len() == 0 {
        Seq::empty()
    } else {
        let rest = tags_in(parts.drop_last());
        if blank(parts.last()) {
            rest
        } else {
            rest.push(trimmed(parts.last()))
        }
    }
}

/// The column text of a list of tags.
pub fn tags_column(tags: &Vec<String>) -> (r: String)
    ensures
        r@ == joined(texts(tags@), ","@),
{
    join(tags, ",")
}

/// The tags in a column text.
pub fn tags_from_column(column: &str) -> (r: Vec<String>)
    ensures
        texts(r@) == tags_in(pieces(column@, ',')),
{
    let parts = split(column, ',');
    let mut out: Vec<String> = Vec::new();
    let mut i: usize = 0;
    assert(texts(out@) =~= tags_in(texts(parts@).take(0)));
    while i < parts.len()
        invariant
            i <= parts@.len(),
            texts(out@) == tags_in(texts(parts@).take(i as int)),
        decreases parts.len() - i,
    {
        let ghost next = texts(parts@).take(i + 1);
        assert(next.drop_last() =~= texts(parts@).take(i as int));
        assert(next.last() == parts@[i as int]@);
        let ghost prev = texts(out@);
        if !is_blank(parts[i].as_str()) {
            let t = trim(parts[i].as_str());
            let ghost tv = t@;
            out.push(t);
            assert(texts(out@) =~= prev.push(tv));
        }
        i = i + 1;
    }
    assert(texts(parts@).take(parts@.len() as int) =~= texts(parts@));
    out
}

/// Tags as they are once stored: those in the column text that holds them.
pub open spec fn stored_tags(tags: Seq<Seq<char>>) -> Seq<Seq<char>> {
    tags_in(pieces(joined(tags, ","@), ','))
}

/// Tags as they are once stored.
pub fn store_tags(tags: &Vec<String>) -> (r: Vec<String>)
    ensures
        texts(r@) == stored_tags(texts(tags@)),
{
    let column = tags_column(tags);
    tags_from_column(column.as_str())
}

/// A tag that survives being stored: no comma, not blank, no white space at
/// either end.
pub open spec fn plain_tag(t: Seq<char>) -> bool {
    &&& t.len() > 0
    &&& !t.contains(',')
    &&& !crate::text::white_space(t[0])
    &&& !crate::text::white_space(t[t.len() - 1])
}

proof fn lemma_pieces_of_plain(t: Seq<char>)
    requires
        !t.contains(','),
    ensures
        pieces(t, ',') == seq![t],
{
    crate::text::lemma_first_of(t, ',');
    let k = crate::text::first_of(t, ',');
    if k < t.len() {
        assert(t[k] == ',');
    }
}

proof fn lemma_pieces_push(s: Seq<char>, t: Seq<char>)
    requires
        !t.contains(','),
    ensures
        pieces(s + ","@ + t, ',') == pieces(s, ',').push(t),
    decreases s.len(),
{
    reveal_strlit(",");
    let whole = s + ","@ + t;
    let k = crate::text::first_of(s, ',');
    crate::text::lemma_first_of(s, ',');
    assert(whole[s.len() as int] == ',');
    if k < s.len() {
        assert forall|i: int| 0 <= i < k implies #[trigger] whole[i] != ',' by {
            assert(whole[i] == s[i]);
        }
        assert(whole[k] == s[k]);
        crate::text::lemma_first_of_unique(whole, ',', k);
        let rest = s.subrange(k + 1, s.len() as int);
        lemma_pieces_push(rest, t);
        assert(whole.subrange(k + 1, whole.len() as int) =~= rest + ","@ + t);
        assert(whole.subrange(0, k) =~= s.subrange(0, k));
        assert(pieces(whole, ',') =~= pieces(s, ',').push(t));
    } else {
        assert forall|i: int| 0 <= i < s.len() implies #[trigger] whole[i] != ',' by {
            assert(whole[i] == s[i]);
        }
        crate::text::lemma_first_of_unique(whole, ',', s.len() as int);
        assert(whole.subrange(0, s.len() as int) =~= s);
        assert(whole.subrange(s.len() as int + 1, whole.len() as int) =~= t);
        lemma_pieces_of_plain(t);
        assert(pieces(whole, ',') =~= seq![s] + seq![t]);
        assert(pieces(s, ',') =~= seq![s]);
        assert(pieces(whole, ',') =~= pieces(s, ',').push(t));
    }
}

proof fn lemma_pieces_of_joined(tags: Seq<Seq<char>>)
    requires
        tags.len() > 0,
        forall|i: int| 0 <= i < tags.len() ==> plain_tag(#[trigger] tags[i]),
    ensures
        pieces(joined(tags, ","@), ',') == tags,
    decreases tags.len(),
{
    assert(plain_tag(tags[tags.len() - 1]));
    if tags.len() == 1 {
        lemma_pieces_of_plain(tags[0]);
        assert(seq![tags[0]] =~= tags);
    } else {
        let rest = tags.drop_last();
        assert forall|i: int| 0 <= i < rest.len() implies plain_tag(#[trigger] rest[i]) by {
            assert(rest[i] == tags[i]);
        }
        lemma_pieces_of_joined(rest);
        lemma_pieces_push(joined(rest, ","@), tags.last());
        assert(rest.push(tags.last()) =~= tags);
    }
}

proof fn lemma_plain_tags_kept(tags: Seq<Seq<char>>)
    requires
        forall|i: int| 0 <= i < tags.len() ==> plain_tag(#[trigger] tags[i]),
    ensures
        tags_in(tags) == tags,
    decreases tags.len(),
{
    if tags.len() > 0 {
        let rest = tags.drop_last();
        assert forall|i: int| 0 <= i < rest.len() implies plain_tag(#[trigger] rest[i]) by {
            assert(rest[i] == tags[i]);
        }
        lemma_plain_tags_kept(rest);
        let t = tags.last();
        assert(plain_tag(tags[tags.len() - 1]));
        assert(!crate::text::white_space(t[0]));
        assert(!blank(t));
        crate::text::lemma_trimmed_id(t);
        assert(rest.push(t) =~= tags);
    } else {
        assert(tags =~= Seq::empty());
    }
}

/// Tags are read back as they were stored, where none holds a comma, is blank or
/// begins or ends with white space.
pub proof fn law_tags_round_trip(tags: Seq<Seq<char>>)
    requires
        forall|i: int| 0 <= i < tags.len() ==> plain_tag(#[trigger] tags[i]),
    ensures
        stored_tags(tags) == tags,
{
    if tags.len() == 0 {
        let e = joined(tags, ","@);
        assert(e.len() == 0);
        assert(pieces(e, ',') =~= seq![e]);
        assert(seq![e].drop_last() =~= Seq::<Seq<char>>::empty());
        assert(blank(e));
        reveal_with_fuel(tags_in, 2);
        assert(tags_in(seq![e]) =~= tags);
    } else {
        lemma_pieces_of_joined(tags);
        lemma_plain_tags_kept(tags);
    }
}

/// A document is filed under the slug that is given for it, or under that of its title
/// where none is; published or pending; and as a guide where no category is given, else
/// as a best practice, a guide or a reference.
pub proof fn law_how_documents_are_filed(
    slug: Seq<char>,
    title: Seq<char>,
    category: Seq<char>,
)
    ensures
        filed_under(None, title) == slug_of(title),
        blank(slug) ==> filed_under(Some(slug), title) == slug_of(title),
        !blank(slug) ==> filed_under(Some(slug), title) == slug_of(slug),
        moderation(true) == "published"@,
        moderation(false) == "pending"@,
        blank(category) ==> filed_category(category) == "guide"@,
        !blank(category) ==> filed_category(category) == category,
        category_names().contains(category) <==> category == "best-practice"@ || category
            == "guide"@ || category == "reference"@,
{
    let all = category_names();
    assert(all[0] == "best-practice"@ && all[1] == "guide"@ && all[2] == "reference"@);
    assert(all.contains(all[0]) && all.contains(all[1]) && all.contains(all[2]));
}

/// A reader sees what is published, and an editor the rest too; a category shows its own
/// documents and no other's.
pub proof fn law_who_sees_a_document(status: Seq<char>, category: Seq<char>, wanted: Seq<char>)
    ensures
        listed(status, category, false, None) <==> status == "published"@,
        listed(status, category, true, None),
        listed(status, category, false, Some(wanted)) <==> status == "published"@ && category
            == wanted,
        listed(status, category, true, Some(wanted)) <==> category == wanted,
{
}

/// A search finds a document exactly when what is sought, in small letters, stands
/// somewhere in its heading, summary and text, in small letters.
pub proof fn law_what_a_search_finds(
    heading: Seq<char>,
    summary: Seq<char>,
    body: Seq<char>,
    q: Seq<char>,
)
    ensures
        found(heading, summary, body, None),
        found(heading, summary, body, Some(q)) <==> exists|i: int|
            0 <= i <= lowercased(heading + " "@ + summary + " "@ + body).len() - lowercased(q).len()
                && #[trigger] lowercased(heading + " "@ + summary + " "@ + body).subrange(
                i,
                i + lowercased(q).len(),
            ) == lowercased(q),
{
    let text = lowercased(heading + " "@ + summary + " "@ + body);
    let p = lowercased(q);
    if occurs(text, p) {
        let i = choose|i: int| #[trigger] stands_at(text, p, i);
        assert(text.subrange(i, i + p.len()) =~= p);
    }
    if exists|i: int|
        0 <= i <= text.len() - p.len() && #[trigger] text.subrange(i, i + p.len()) == p {
        let i = choose|i: int|
            0 <= i <= text.len() - p.len() && #[trigger] text.subrange(i, i + p.len()) == p;
        assert(stands_at(text, p, i));
    }
}

/// The tags of a column are its pieces without the white space around them, blanks left
/// out.
pub proof fn law_tags_of_a_column(parts: Seq<Seq<char>>)
    ensures
        tags_in(parts) == parts.filter(|p: Seq<char>| !blank(p)).map_values(
            |p: Seq<char>| trimmed(p),
        ),
    decreases parts.len(),
{
    reveal(Seq::filter);
    let f = |p: Seq<char>| !blank(p);
    let g = |p: Seq<char>| trimmed(p);
    if parts.len() > 0 {
        let t = parts.drop_last();
        law_tags_of_a_column(t);
        let last = parts.last();
        assert(t.filter(f).push(last).map_values(g) =~= t.filter(f).map_values(g).push(g(last)));
    }
    assert(tags_in(parts) =~= parts.filter(f).map_values(g));
}

} // verus!
