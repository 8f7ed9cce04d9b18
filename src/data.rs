use vstd::prelude::*;

verus! {

/// The characters of an optional string.
pub open spec fn opt_chars(o: Option<String>) -> Option<Seq<char>> {
    match o {
        Some(s) => Some(s@),
        None => None,
    }
}

/// A document identifier: where, which, what kind and when.
#[derive(Clone, Debug, PartialEq, Eq)]
pub struct DocumentId {
    pub country: String,
    pub doc_number: String,
    pub kind: Option<String>,
    pub date: String,
}

pub struct DocumentIdView {
    pub country: Seq<char>,
    pub doc_number: Seq<char>,
    pub kind: Option<Seq<char>>,
    pub date: Seq<char>,
}

impl View for DocumentId {
    type V = DocumentIdView;

    open spec fn view(&self) -> DocumentIdView {
        DocumentIdView {
            country: self.country@,
            doc_number: self.doc_number@,
            kind: opt_chars(self.kind),
            date: self.date@,
        }
    }
}

pub open spec fn empty_document_id() -> DocumentIdView {
    DocumentIdView {
        country: Seq::empty(),
        doc_number: Seq::empty(),
        kind: None,
        date: Seq::empty(),
    }
}

impl Default for DocumentId {
    fn default() -> (r: DocumentId)
        ensures
            r@ == empty_document_id(),
    {
        DocumentId { country: String::new(), doc_number: String::new(), kind: None, date: String::new() }
    }
}

/// A Locarno (industrial design) classification.
#[derive(Clone, Debug, PartialEq, Eq)]
pub struct ClassificationLocarno {
    pub edition: String,
    pub main_classification: String,
}

pub struct ClassificationLocarnoView {
    pub edition: Seq<char>,
    pub main_classification: Seq<char>,
}

impl View for ClassificationLocarno {
    type V = ClassificationLocarnoView;

    open spec fn view(&self) -> ClassificationLocarnoView {
        ClassificationLocarnoView { edition: self.edition@, main_classification: self.main_classification@ }
    }
}

pub open spec fn empty_locarno() -> ClassificationLocarnoView {
    ClassificationLocarnoView { edition: Seq::empty(), main_classification: Seq::empty() }
}

impl Default for ClassificationLocarno {
    fn default() -> (r: ClassificationLocarno)
        ensures
            r@ == empty_locarno(),
    {
        ClassificationLocarno { edition: String::new(), main_classification: String::new() }
    }
}

/// A national classification.
#[derive(Clone, Debug, PartialEq, Eq)]
pub struct ClassificationNational {
    pub country: String,
    pub additional_info: String,
    pub main_classification: String,
    pub further_classification: Option<String>,
}

pub struct ClassificationNationalView {
    pub country: Seq<char>,
    pub additional_info: Seq<char>,
    pub main_classification: Seq<char>,
    pub further_classification: Option<Seq<char>>,
}

impl View for ClassificationNational {
    type V = ClassificationNationalView;

    open spec fn view(&self) -> ClassificationNationalView {
        ClassificationNationalView {
            country: self.country@,
            additional_info: self.additional_info@,
            main_classification: self.main_classification@,
            further_classification: opt_chars(self.further_classification),
        }
    }
}

pub open spec fn empty_national() -> ClassificationNationalView {
    ClassificationNationalView {
        country: Seq::empty(),
        additional_info: Seq::empty(),
        main_classification: Seq::empty(),
        further_classification: None,
    }
}

impl Default for ClassificationNational {
    fn default() -> (r: ClassificationNational)
        ensures
            r@ == empty_national(),
    {
        ClassificationNational {
            country: String::new(),
            additional_info: String::new(),
            main_classification: String::new(),
            further_classification: None,
        }
    }
}

/// The bibliographic part of a grant.
#[derive(Clone, Debug, PartialEq, Eq)]
pub struct BibliographicDataGrant {
    pub publication_reference: DocumentId,
    pub application_reference: DocumentId,
    pub us_application_series_code: String,
    pub classification_locarno: ClassificationLocarno,
    pub classification_national: ClassificationNational,
}

pub struct BibliographicDataGrantView {
    pub publication_reference: DocumentIdView,
    pub application_reference: DocumentIdView,
    pub us_application_series_code: Seq<char>,
    pub classification_locarno: ClassificationLocarnoView,
    pub classification_national: ClassificationNationalView,
}

impl View for BibliographicDataGrant {
    type V = BibliographicDataGrantView;

    open spec fn view(&self) -> BibliographicDataGrantView {
        BibliographicDataGrantView {
            publication_reference: self.publication_reference@,
            application_reference: self.application_reference@,
            us_application_series_code: self.us_application_series_code@,
            classification_locarno: self.classification_locarno@,
            classification_national: self.classification_national@,
        }
    }
}

pub open spec fn empty_biblio() -> BibliographicDataGrantView {
    BibliographicDataGrantView {
        publication_reference: empty_document_id(),
        application_reference: empty_document_id(),
        us_application_series_code: Seq::empty(),
        classification_locarno: empty_locarno(),
        classification_national: empty_national(),
    }
}

impl Default for BibliographicDataGrant {
    fn default() -> (r: BibliographicDataGrant)
        ensures
            r@ == empty_biblio(),
    {
        BibliographicDataGrant {
            publication_reference: DocumentId::default(),
            application_reference: DocumentId::default(),
            us_application_series_code: String::new(),
            classification_locarno: ClassificationLocarno::default(),
            classification_national: ClassificationNational::default(),
        }
    }
}

/// The descriptions held by a list of (name, text) entries, where a later
/// entry for a name supersedes an earlier one.
pub open spec fn descriptions_map(s: Seq<(String, String)>) -> Map<Seq<char>, Seq<char>>
    decreases s.len(),
{
    if s.len() == 0 {
        Map::empty()
    } else {
        descriptions_map(s.drop_last()).insert(s.last().0@, s.last().1@)
    }
}

/// Entries after index `i` whose names differ from `k` do not change what the
/// descriptions hold for `k`.
proof fn lemma_descriptions_suffix(s: Seq<(String, String)>, i: int, k: Seq<char>)
    requires
        0 <= i <= s.len(),
        forall|j: int| i <= j < s.len() ==> (#[trigger] s[j]).0@ != k,
    ensures
        descriptions_map(s).contains_key(k) == descriptions_map(s.subrange(0, i)).contains_key(k),
        descriptions_map(s).contains_key(k) ==> descriptions_map(s)[k] == descriptions_map(
            s.subrange(0, i),
        )[k],
    decreases s.len(),
{
    if i == s.len() {
        assert(s.subrange(0, i) =~= s);
    } else {
        let t = s.drop_last();
        assert(t.subrange(0, i) =~= s.subrange(0, i));
        assert forall|j: int| i <= j < t.len() implies (#[trigger] t[j]).0@ != k by {
            assert(t[j] == s[j]);
        }
        lemma_descriptions_suffix(t, i, k);
    }
}

/// The entries of `s` whose name is not `k`, in order.
pub open spec fn without_name(s: Seq<(String, String)>, k: Seq<char>) -> Seq<(String, String)>
    decreases s.len(),
{
    if s.len() == 0 {
        s
    } else if s.last().0@ == k {
        without_name(s.drop_last(), k)
    } else {
        without_name(s.drop_last(), k).push(s.last())
    }
}

proof fn lemma_without_name(s: Seq<(String, String)>, k: Seq<char>, q: Seq<char>)
    requires
        q != k,
    ensures
        descriptions_map(without_name(s, k)).contains_key(q) == descriptions_map(s).contains_key(q),
        descriptions_map(s).contains_key(q) ==> descriptions_map(without_name(s, k))[q]
            == descriptions_map(s)[q],
    decreases s.len(),
{
    if s.len() > 0 {
        let t = s.drop_last();
        lemma_without_name(t, k, q);
        if s.last().0@ != k {
            let w = without_name(t, k).push(s.last());
            assert(w.drop_last() =~= without_name(t, k));
        }
    }
}

/// Stores `text` under `name`, replacing an earlier entry of that name.
pub fn insert_description(v: &mut Vec<(String, String)>, name: String, text: String)
    ensures
        descriptions_map(final(v)@) == descriptions_map(old(v)@).insert(name@, text@),
        final(v)@ == without_name(old(v)@, name@).push((name, text)),
{
    let mut kept: Vec<(String, String)> = Vec::new();
    let mut i: usize = 0;
    while i < v.len()
        invariant
            0 <= i <= v@.len(),
            v@ == old(v)@,
            kept@ == without_name(v@.subrange(0, i as int), name@),
        decreases v.len() - i,
    {
        proof {
            assert(v@.subrange(0, i + 1).drop_last() =~= v@.subrange(0, i as int));
        }
        if v[i].0 != name {
            kept.push((v[i].0.clone(), v[i].1.clone()));
        }
        i = i + 1;
    }
    proof {
        assert(v@.subrange(0, v@.len() as int) =~= v@);
    }
    let ghost nv = name@;
    let ghost tv = text@;
    kept.push((name, text));
    *v = kept;
    proof {
        let w = without_name(old(v)@, nv);
        assert(v@.drop_last() =~= w);
        assert(v@.last().0@ == nv && v@.last().1@ == tv);
        assert(descriptions_map(v@) == descriptions_map(w).insert(nv, tv));
        let m1 = descriptions_map(w).insert(nv, tv);
        let m2 = descriptions_map(old(v)@).insert(nv, tv);
        assert forall|q: Seq<char>| #[trigger] m1.contains_key(q) == m2.contains_key(q) by {
            if q != nv {
                lemma_without_name(old(v)@, nv, q);
            }
        }
        assert forall|q: Seq<char>| #[trigger] m1.contains_key(q) implies m1[q] == m2[q] by {
            if q != nv {
                lemma_without_name(old(v)@, nv, q);
            }
        }
        assert(descriptions_map(v@) =~= descriptions_map(old(v)@).insert(nv, tv));
    }
}

/// One decoded patent grant record.
#[derive(Clone, Debug, PartialEq, Eq)]
pub struct PatentGrant {
    pub us_bibliographic_data_grant: BibliographicDataGrant,
    /// Text blocks by section name, each name once; a later block of a name
    /// replaces the earlier one.
    pub descriptions: Vec<(String, String)>,
    pub us_claim_statement: Option<String>,
    pub claims: Vec<String>,
}

pub struct PatentGrantView {
    pub us_bibliographic_data_grant: BibliographicDataGrantView,
    pub descriptions: Map<Seq<char>, Seq<char>>,
    pub us_claim_statement: Option<Seq<char>>,
    pub claims: Seq<Seq<char>>,
}

impl View for PatentGrant {
    type V = PatentGrantView;

    open spec fn view(&self) -> PatentGrantView {
        PatentGrantView {
            us_bibliographic_data_grant: self.us_bibliographic_data_grant@,
            descriptions: descriptions_map(self.descriptions@),
            us_claim_statement: opt_chars(self.us_claim_statement),
            claims: self.claims@.map_values(|c: String| c@),
        }
    }
}

pub open spec fn empty_grant() -> PatentGrantView {
    PatentGrantView {
        us_bibliographic_data_grant: empty_biblio(),
        descriptions: Map::empty(),
        us_claim_statement: None,
        claims: Seq::empty(),
    }
}

impl Default for PatentGrant {
    fn default() -> (r: PatentGrant)
        ensures
            r@ == empty_grant(),
    {
        let r = PatentGrant {
            us_bibliographic_data_grant: BibliographicDataGrant::default(),
            descriptions: Vec::new(),
            us_claim_statement: None,
            claims: Vec::new(),
        };
        assert(r.claims@.map_values(|c: String| c@) =~= Seq::<Seq<char>>::empty());
        r
    }
}

impl PatentGrant {
    /// The text of the description block with the given name.
    pub fn description(&self, name: &String) -> (r: Option<String>)
        ensures
            opt_chars(r) == (if descriptions_map(self.descriptions@).contains_key(name@) {
                Some(descriptions_map(self.descriptions@)[name@])
            } else {
                None
            }),
    {
        let mut i: usize = self.descriptions.len();
        while i > 0
            invariant
                0 <= i <= self.descriptions@.len(),
                forall|j: int|
                    i <= j < self.descriptions@.len() ==> (#[trigger] self.descriptions@[j]).0@
                        != name@,
            decreases i,
        {
            if self.descriptions[i - 1].0 == *name {
                proof {
                    let s = self.descriptions@;
                    lemma_descriptions_suffix(s, i as int, name@);
                    assert(s.subrange(0, i as int).drop_last() =~= s.subrange(0, i - 1));
                }
                return Some(self.descriptions[i - 1].1.clone());
            }
            i = i - 1;
        }
        proof {
            lemma_descriptions_suffix(self.descriptions@, 0, name@);
            assert(self.descriptions@.subrange(0, 0) =~= Seq::<(String, String)>::empty());
        }
        None
    }
}

} // verus!
