//! Changelogs, their entries, and the keyword of each kind of entry.

use vstd::prelude::*;
use vstd::string::*;

verus! {

/// The kind of a change.
#[derive(Debug, Copy, Clone, Hash, PartialEq, Eq, Structural)]
pub enum ChangelogEntryType {
    Bugfix,
    Wip,
    Tweak,
    Soundadd,
    Sounddel,
    Rscadd,
    Rscdel,
    Imageadd,
    Imagedel,
    Spellcheck,
    Experiment,
    Tgs,
}

impl ChangelogEntryType {
    /// The kind's name: in a pull request's text, and as a key in a changelog
    /// file.
    pub open spec fn spec_keyword(self) -> Seq<char> {
        match self {
            ChangelogEntryType::Bugfix => "bugfix"@,
            ChangelogEntryType::Wip => "wip"@,
            ChangelogEntryType::Tweak => "tweak"@,
            ChangelogEntryType::Soundadd => "soundadd"@,
            ChangelogEntryType::Sounddel => "sounddel"@,
            ChangelogEntryType::Rscadd => "rscadd"@,
            ChangelogEntryType::Rscdel => "rscdel"@,
            ChangelogEntryType::Imageadd => "imageadd"@,
            ChangelogEntryType::Imagedel => "imagedel"@,
            ChangelogEntryType::Spellcheck => "spellcheck"@,
            ChangelogEntryType::Experiment => "experiment"@,
            ChangelogEntryType::Tgs => "tgs"@,
        }
    }

    /// The kind's name.
    pub fn keyword(self) -> (r: &'static str)
        ensures
            r@ == self.spec_keyword(),
    {
        match self {
            ChangelogEntryType::Bugfix => "bugfix",
            ChangelogEntryType::Wip => "wip",
            ChangelogEntryType::Tweak => "tweak",
            ChangelogEntryType::Soundadd => "soundadd",
            ChangelogEntryType::Sounddel => "sounddel",
            ChangelogEntryType::Rscadd => "rscadd",
            ChangelogEntryType::Rscdel => "rscdel",
            ChangelogEntryType::Imageadd => "imageadd",
            ChangelogEntryType::Imagedel => "imagedel",
            ChangelogEntryType::Spellcheck => "spellcheck",
            ChangelogEntryType::Experiment => "experiment",
            ChangelogEntryType::Tgs => "tgs",
        }
    }

    /// The kind with the name `word`, if there is one.
    pub fn from_keyword(word: &str) -> (r: Option<ChangelogEntryType>)
        ensures
            r == kind_of_keyword(word@),
    {
        let word = word.to_owned();
        let r = if word == "bugfix".to_owned() {
            Some(ChangelogEntryType::Bugfix)
        } else if word == "wip".to_owned() {
            Some(ChangelogEntryType::Wip)
        } else if word == "tweak".to_owned() {
            Some(ChangelogEntryType::Tweak)
        } else if word == "soundadd".to_owned() {
            Some(ChangelogEntryType::Soundadd)
        } else if word == "sounddel".to_owned() {
            Some(ChangelogEntryType::Sounddel)
        } else if word == "rscdel".to_owned() {
            Some(ChangelogEntryType::Rscdel)
        } else if word == "rscadd".to_owned() {
            Some(ChangelogEntryType::Rscadd)
        } else if word == "imageadd".to_owned() {
            Some(ChangelogEntryType::Imageadd)
        } else if word == "imagedel".to_owned() {
            Some(ChangelogEntryType::Imagedel)
        } else if word == "spellcheck".to_owned() {
            Some(ChangelogEntryType::Spellcheck)
        } else if word == "experiment".to_owned() {
            Some(ChangelogEntryType::Experiment)
        } else if word == "tgs".to_owned() {
            Some(ChangelogEntryType::Tgs)
        } else {
            None
        };
        proof {
            match r {
                Some(kind) => {
                    assert(kind.spec_keyword() == word@);
                    let other = choose|k: ChangelogEntryType| k.spec_keyword() == word@;
                    law_keywords_are_distinct(kind, other);
                },
                None => {
                    if is_keyword(word@) {
                        let kind = choose|k: ChangelogEntryType| k.spec_keyword() == word@;
                        assert(kind.spec_keyword() == word@);
                    }
                },
            }
        }
        r
    }
}

/// Whether `word` is the name of a kind.
pub open spec fn is_keyword(word: Seq<char>) -> bool {
    exists|kind: ChangelogEntryType| #[trigger] kind.spec_keyword() == word
}

/// The kind with the name `word`, if there is one.
pub open spec fn kind_of_keyword(word: Seq<char>) -> Option<ChangelogEntryType> {
    if is_keyword(word) {
        Some(choose|kind: ChangelogEntryType| #[trigger] kind.spec_keyword() == word)
    } else {
        None
    }
}

proof fn reveal_keywords()
    ensures
        "bugfix"@ == seq!['b', 'u', 'g', 'f', 'i', 'x'],
        "wip"@ == seq!['w', 'i', 'p'],
        "tweak"@ == seq!['t', 'w', 'e', 'a', 'k'],
        "soundadd"@ == seq!['s', 'o', 'u', 'n', 'd', 'a', 'd', 'd'],
        "sounddel"@ == seq!['s', 'o', 'u', 'n', 'd', 'd', 'e', 'l'],
        "rscadd"@ == seq!['r', 's', 'c', 'a', 'd', 'd'],
        "rscdel"@ == seq!['r', 's', 'c', 'd', 'e', 'l'],
        "imageadd"@ == seq!['i', 'm', 'a', 'g', 'e', 'a', 'd', 'd'],
        "imagedel"@ == seq!['i', 'm', 'a', 'g', 'e', 'd', 'e', 'l'],
        "spellcheck"@ == seq!['s', 'p', 'e', 'l', 'l', 'c', 'h', 'e', 'c', 'k'],
        "experiment"@ == seq!['e', 'x', 'p', 'e', 'r', 'i', 'm', 'e', 'n', 't'],
        "tgs"@ == seq!['t', 'g', 's'],
{
    reveal_strlit("bugfix");
    reveal_strlit("wip");
    reveal_strlit("tweak");
    reveal_strlit("soundadd");
    reveal_strlit("sounddel");
    reveal_strlit("rscadd");
    reveal_strlit("rscdel");
    reveal_strlit("imageadd");
    reveal_strlit("imagedel");
    reveal_strlit("spellcheck");
    reveal_strlit("experiment");
    reveal_strlit("tgs");
}

/// No two kinds share a keyword.
pub proof fn law_keywords_are_distinct(a: ChangelogEntryType, b: ChangelogEntryType)
    requires
        a.spec_keyword() == b.spec_keyword(),
    ensures
        a == b,
{
    reveal_keywords();
    let x = a.spec_keyword();
    let y = b.spec_keyword();
    assert(x.len() == y.len());
    assert(x[0] == y[0] && x[1] == y[1] && x[2] == y[2]);
    assert(x.len() > 3 ==> x[3] == y[3]);
    assert(x.len() > 5 ==> x[5] == y[5]);
}

/// A kind is found again by its keyword, and a word that names a kind is that
/// kind's keyword.
pub proof fn law_keyword_round_trip(kind: ChangelogEntryType, word: Seq<char>)
    ensures
        kind_of_keyword(kind.spec_keyword()) == Some(kind),
        kind_of_keyword(word) == Some(kind) ==> word == kind.spec_keyword(),
{
    let found = choose|k: ChangelogEntryType| #[trigger]
        k.spec_keyword() == kind.spec_keyword();
    assert(found.spec_keyword() == kind.spec_keyword());
    law_keywords_are_distinct(found, kind);
}

/// A keyword is made of lower-case letters, and holds three of them at least.
pub proof fn lemma_keyword_letters(word: Seq<char>)
    requires
        is_keyword(word),
    ensures
        word.len() >= 3,
        forall|i: int| 0 <= i < word.len() ==> 'a' <= #[trigger] word[i] <= 'z',
{
    reveal_keywords();
}

/// One change: its kind and the text that describes it.
#[derive(Debug, Clone, PartialEq, Eq)]
pub struct ChangelogEntry(pub ChangelogEntryType, pub String);

impl View for ChangelogEntry {
    type V = (ChangelogEntryType, Seq<char>);

    open spec fn view(&self) -> (ChangelogEntryType, Seq<char>) {
        (self.0, self.1@)
    }
}

/// The views of a list of entries.
pub open spec fn entries(changes: Seq<ChangelogEntry>) -> Seq<(ChangelogEntryType, Seq<char>)> {
    Seq::new(changes.len(), |i: int| changes[i]@)
}

/// A map that should hold one pair holds another number of them.
#[derive(Debug, Clone, Copy, PartialEq, Eq, Structural)]
pub struct InvalidLength {
    /// 0 for an empty map, 2 for every map with more than one pair.
    pub found: usize,
}

impl ChangelogEntry {
    /// The one pair of the map that stands for the entry in a changelog file.
    pub fn to_pair(&self) -> (r: (ChangelogEntryType, &str))
        ensures
            r.0 == self@.0,
            r.1@ == self@.1,
    {
        (self.0, self.1.as_str())
    }

    /// The entry that a map in a changelog file stands for: `first` is the map's
    /// first pair, `second` the key that follows it.
    pub fn from_map(
        first: Option<(ChangelogEntryType, String)>,
        second: Option<ChangelogEntryType>,
    ) -> (r: Result<ChangelogEntry, InvalidLength>)
        ensures
            entry_result(r) == entry_of_map(
                match first {
                    Some(pair) => Some((pair.0, pair.1@)),
                    None => None,
                },
                second,
            ),
    {
        match first {
            Some((kind, description)) => match second {
                Some(_) => Err(InvalidLength { found: 2 }),
                None => Ok(ChangelogEntry(kind, description)),
            },
            None => Err(InvalidLength { found: 0 }),
        }
    }
}

/// The view of the outcome of reading an entry.
pub open spec fn entry_result(r: Result<ChangelogEntry, InvalidLength>) -> Result<
    (ChangelogEntryType, Seq<char>),
    InvalidLength,
> {
    match r {
        Ok(entry) => Ok(entry@),
        Err(e) => Err(e),
    }
}

/// A map of exactly one pair stands for an entry; the empty map and the map with
/// a second key are refused.
pub open spec fn entry_of_map(
    first: Option<(ChangelogEntryType, Seq<char>)>,
    second: Option<ChangelogEntryType>,
) -> Result<(ChangelogEntryType, Seq<char>), InvalidLength> {
    match (first, second) {
        (None, _) => Err(InvalidLength { found: 0 }),
        (Some(_), Some(_)) => Err(InvalidLength { found: 2 }),
        (Some(pair), None) => Ok(pair),
    }
}

/// The entry that was written as a map of one pair, the key by its keyword, is
/// read back from that map.
pub proof fn law_written_entry_is_read_back(entry: ChangelogEntry)
    ensures
        kind_of_keyword(entry@.0.spec_keyword()) == Some(entry@.0),
        entry_of_map(
            Some((kind_of_keyword(entry@.0.spec_keyword())->0, entry@.1)),
            None,
        ) == Ok::<_, InvalidLength>(entry@),
{
    law_keyword_round_trip(entry@.0, entry@.0.spec_keyword());
}

/// The changes that one author made. Its view holds the texts in place of the
/// strings.
#[derive(Debug, Clone)]
pub struct Changelog {
    pub author: String,
    pub changes: Vec<ChangelogEntry>,
    pub delete_after: Option<bool>,
}

/// What a changelog says.
pub struct ChangelogView {
    pub author: Seq<char>,
    pub changes: Seq<(ChangelogEntryType, Seq<char>)>,
    pub delete_after: Option<bool>,
}

impl View for Changelog {
    type V = ChangelogView;

    open spec fn view(&self) -> ChangelogView {
        ChangelogView {
            author: self.author@,
            changes: entries(self.changes@),
            delete_after: self.delete_after,
        }
    }
}

/// The keyword of each kind.
pub proof fn law_keyword_of_each_kind(kind: ChangelogEntryType)
    ensures
        kind.spec_keyword() == match kind {
            ChangelogEntryType::Bugfix => seq!['b', 'u', 'g', 'f', 'i', 'x'],
            ChangelogEntryType::Wip => seq!['w', 'i', 'p'],
            ChangelogEntryType::Tweak => seq!['t', 'w', 'e', 'a', 'k'],
            ChangelogEntryType::Soundadd => seq!['s', 'o', 'u', 'n', 'd', 'a', 'd', 'd'],
            ChangelogEntryType::Sounddel => seq!['s', 'o', 'u', 'n', 'd', 'd', 'e', 'l'],
            ChangelogEntryType::Rscadd => seq!['r', 's', 'c', 'a', 'd', 'd'],
            ChangelogEntryType::Rscdel => seq!['r', 's', 'c', 'd', 'e', 'l'],
            ChangelogEntryType::Imageadd => seq!['i', 'm', 'a', 'g', 'e', 'a', 'd', 'd'],
            ChangelogEntryType::Imagedel => seq!['i', 'm', 'a', 'g', 'e', 'd', 'e', 'l'],
            ChangelogEntryType::Spellcheck => seq![
                's',
                'p',
                'e',
                'l',
                'l',
                'c',
                'h',
                'e',
                'c',
                'k',
            ],
            ChangelogEntryType::Experiment => seq![
                'e',
                'x',
                'p',
                'e',
                'r',
                'i',
                'm',
                'e',
                'n',
                't',
            ],
            ChangelogEntryType::Tgs => seq!['t', 'g', 's'],
        },
{
    reveal_keywords();
}

/// A map is an entry exactly where it holds one pair, whatever the pair; an empty map
/// and a longer one are told apart by the number that is reported.
pub proof fn law_one_pair_is_an_entry(
    first: Option<(ChangelogEntryType, Seq<char>)>,
    second: Option<ChangelogEntryType>,
)
    ensures
        entry_of_map(first, second) is Ok <==> first is Some && second is None,
        entry_of_map(first, second) is Ok ==> Some(entry_of_map(first, second)->Ok_0) == first,
        first is None ==> entry_of_map(first, second)->Err_0.found == 0,
        first is Some && second is Some ==> entry_of_map(first, second)->Err_0.found == 2,
{
}

/// The view of a result, of an entry, of a list of entries and of a changelog leaves
/// nothing out.
pub proof fn law_views_of_entries_are_whole(
    e: ChangelogEntry,
    list: Seq<ChangelogEntry>,
    changelog: Changelog,
    r: Result<ChangelogEntry, InvalidLength>,
)
    ensures
        e@.0 == e.0,
        e@.1 == e.1@,
        entries(list).len() == list.len(),
        forall|k: int| 0 <= k < list.len() ==> #[trigger] entries(list)[k] == (list[k].0, list[k].1@),
        changelog@.author == changelog.author@,
        changelog@.changes == entries(changelog.changes@),
        changelog@.delete_after == changelog.delete_after,
        entry_result(r) is Ok <==> r is Ok,
        r is Ok ==> entry_result(r)->Ok_0 == (r->Ok_0.0, r->Ok_0.1@),
        r is Err ==> entry_result(r)->Err_0 == r->Err_0,
{
}

} // verus!
