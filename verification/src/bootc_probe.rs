//! The logo of the distribution.

use vstd::prelude::*;

verus! {

/// A logo: an icon of the theme, or a file.
#[derive(Debug, Clone, PartialEq, Eq)]
pub enum HeroLogo {
    Themed(String),
    File(String),
}

/// What is known of a logo that the distribution names.
#[derive(Debug)]
pub struct LogoCandidate {
    pub name: String,
    /// The theme has an icon of that name.
    pub themed: bool,
    /// The file that holds it, where there is one.
    pub file: Option<String>,
}

/// A logo, taken by its characters.
pub enum LogoModel {
    Themed(Seq<char>),
    File(Seq<char>),
}

impl View for HeroLogo {
    type V = LogoModel;

    open spec fn view(&self) -> LogoModel {
        match *self {
            HeroLogo::Themed(s) => LogoModel::Themed(s@),
            HeroLogo::File(s) => LogoModel::File(s@),
        }
    }
}

/// The first logo that the theme has.
pub open spec fn first_themed(list: Seq<LogoCandidate>) -> Option<Seq<char>>
    decreases list.len(),
{
    if list.len() == 0 {
        None
    } else {
        match first_themed(list.drop_last()) {
            Some(s) => Some(s),
            None => if list.last().themed {
                Some(list.last().name@)
            } else {
                None
            },
        }
    }
}

/// The first logo that a file holds.
pub open spec fn first_file(list: Seq<LogoCandidate>) -> Option<Seq<char>>
    decreases list.len(),
{
    if list.len() == 0 {
        None
    } else {
        match first_file(list.drop_last()) {
            Some(s) => Some(s),
            None => match list.last().file {
                Some(f) => Some(f@),
                None => None,
            },
        }
    }
}

/// The logo to show: one that the theme has; else one that a file holds; else a
/// general one.
pub open spec fn logo_of(list: Seq<LogoCandidate>, has_distributor: bool) -> LogoModel {
    match first_themed(list) {
        Some(s) => LogoModel::Themed(s),
        None => match first_file(list) {
            Some(f) => LogoModel::File(f),
            None => if has_distributor {
                LogoModel::Themed("distributor-logo-symbolic"@)
            } else {
                LogoModel::Themed("computer-symbolic"@)
            },
        },
    }
}

fn themed_logo(list: &Vec<LogoCandidate>) -> (r: Option<String>)
    ensures
        match r {
            Some(s) => first_themed(list@) == Some(s@),
            None => first_themed(list@) is None,
        },
{
    let mut i: usize = 0;
    while i < list.len()
        invariant
            i <= list@.len(),
            first_themed(list@.take(i as int)) is None,
        decreases list@.len() - i,
    {
        assert(list@.take(i + 1).drop_last() =~= list@.take(i as int));
        if list[i].themed {
            proof {
                lemma_themed_stays(list@, i + 1);
            }
            return Some(list[i].name.clone());
        }
        i += 1;
    }
    assert(list@.take(list@.len() as int) =~= list@);
    None
}

fn logo_file(list: &Vec<LogoCandidate>) -> (r: Option<String>)
    ensures
        match r {
            Some(s) => first_file(list@) == Some(s@),
            None => first_file(list@) is None,
        },
{
    let mut i: usize = 0;
    while i < list.len()
        invariant
            i <= list@.len(),
            first_file(list@.take(i as int)) is None,
        decreases list@.len() - i,
    {
        assert(list@.take(i + 1).drop_last() =~= list@.take(i as int));
        if let Some(f) = &list[i].file {
            proof {
                lemma_file_stays(list@, i + 1);
            }
            return Some(f.clone());
        }
        i += 1;
    }
    assert(list@.take(list@.len() as int) =~= list@);
    None
}

proof fn lemma_themed_stays(list: Seq<LogoCandidate>, k: int)
    requires
        0 <= k <= list.len(),
        first_themed(list.take(k)) is Some,
    ensures
        first_themed(list) == first_themed(list.take(k)),
    decreases list.len() - k,
{
    if k < list.len() {
        assert(list.take(k + 1).drop_last() =~= list.take(k));
        lemma_themed_stays(list, k + 1);
    } else {
        assert(list.take(k) =~= list);
    }
}

proof fn lemma_file_stays(list: Seq<LogoCandidate>, k: int)
    requires
        0 <= k <= list.len(),
        first_file(list.take(k)) is Some,
    ensures
        first_file(list) == first_file(list.take(k)),
    decreases list.len() - k,
{
    if k < list.len() {
        assert(list.take(k + 1).drop_last() =~= list.take(k));
        lemma_file_stays(list, k + 1);
    } else {
        assert(list.take(k) =~= list);
    }
}

/// The logo to show. `branded` are the logos that the distribution names, in
/// order, and `has_distributor` is whether the theme has a general one.
pub fn read_logo_icon_name(branded: &Vec<LogoCandidate>, has_distributor: bool) -> (r: HeroLogo)
    ensures
        r@ == logo_of(branded@, has_distributor),
{
    if let Some(name) = themed_logo(branded) {
        return HeroLogo::Themed(name);
    }
    if let Some(path) = logo_file(branded) {
        return HeroLogo::File(path);
    }
    if has_distributor {
        HeroLogo::Themed("distributor-logo-symbolic".to_owned())
    } else {
        HeroLogo::Themed("computer-symbolic".to_owned())
    }
}

/// The first logo that the theme has is shown, whatever files there are; else the
/// first that a file holds; else the general one of the theme, or a computer.
pub proof fn law_which_logo_is_shown(list: Seq<LogoCandidate>, k: int, has_distributor: bool)
    ensures
        0 <= k < list.len() && list[k].themed && (forall|i: int|
            0 <= i < k ==> !(#[trigger] list[i]).themed) ==> logo_of(list, has_distributor)
            == LogoModel::Themed(list[k].name@),
        (forall|i: int| 0 <= i < list.len() ==> !(#[trigger] list[i]).themed) && 0 <= k < list.len()
            && list[k].file is Some && (forall|i: int|
            0 <= i < k ==> (#[trigger] list[i]).file is None) ==> logo_of(list, has_distributor)
            == LogoModel::File(list[k].file.unwrap()@),
        (forall|i: int|
            0 <= i < list.len() ==> !(#[trigger] list[i]).themed && list[i].file is None)
            ==> logo_of(list, has_distributor) == LogoModel::Themed(
            if has_distributor {
                "distributor-logo-symbolic"@
            } else {
                "computer-symbolic"@
            },
        ),
{
    if forall|i: int| 0 <= i < list.len() ==> !(#[trigger] list[i]).themed {
        lemma_none_themed(list);
    }
    if 0 <= k < list.len() && list[k].themed && (forall|i: int|
        0 <= i < k ==> !(#[trigger] list[i]).themed) {
        lemma_first_themed(list, k);
    }
    if 0 <= k < list.len() && list[k].file is Some && (forall|i: int|
        0 <= i < k ==> (#[trigger] list[i]).file is None) {
        lemma_first_file(list, k);
    }
    if forall|i: int| 0 <= i < list.len() ==> !(#[trigger] list[i]).themed && list[i].file is None {
        assert(forall|i: int| 0 <= i < list.len() ==> (#[trigger] list[i]).file is None);
        lemma_no_file(list);
        lemma_none_themed(list);
    }
}

proof fn lemma_none_themed(list: Seq<LogoCandidate>)
    requires
        forall|i: int| 0 <= i < list.len() ==> !(#[trigger] list[i]).themed,
    ensures
        first_themed(list) is None,
    decreases list.len(),
{
    if list.len() > 0 {
        let front = list.drop_last();
        assert(list[list.len() - 1] == list.last());
        assert forall|i: int| 0 <= i < front.len() implies !(#[trigger] front[i]).themed by {
            assert(front[i] == list[i]);
        }
        lemma_none_themed(front);
    }
}

proof fn lemma_no_file(list: Seq<LogoCandidate>)
    requires
        forall|i: int| 0 <= i < list.len() ==> (#[trigger] list[i]).file is None,
    ensures
        first_file(list) is None,
    decreases list.len(),
{
    if list.len() > 0 {
        let front = list.drop_last();
        assert(list[list.len() - 1] == list.last());
        assert forall|i: int| 0 <= i < front.len() implies (#[trigger] front[i]).file is None by {
            assert(front[i] == list[i]);
        }
        lemma_no_file(front);
    }
}

proof fn lemma_first_themed(list: Seq<LogoCandidate>, k: int)
    requires
        0 <= k < list.len(),
        list[k].themed,
        forall|i: int| 0 <= i < k ==> !(#[trigger] list[i]).themed,
    ensures
        first_themed(list) == Some(list[k].name@),
{
    let upto = list.take(k);
    assert forall|i: int| 0 <= i < upto.len() implies !(#[trigger] upto[i]).themed by {
        assert(upto[i] == list[i]);
    }
    lemma_none_themed(upto);
    assert(list.take(k + 1).drop_last() =~= upto);
    assert(list.take(k + 1).last() == list[k]);
    lemma_themed_stays(list, k + 1);
}

proof fn lemma_first_file(list: Seq<LogoCandidate>, k: int)
    requires
        0 <= k < list.len(),
        list[k].file is Some,
        forall|i: int| 0 <= i < k ==> (#[trigger] list[i]).file is None,
    ensures
        first_file(list) == Some(list[k].file.unwrap()@),
{
    let upto = list.take(k);
    assert forall|i: int| 0 <= i < upto.len() implies (#[trigger] upto[i]).file is None by {
        assert(upto[i] == list[i]);
    }
    lemma_no_file(upto);
    assert(list.take(k + 1).drop_last() =~= upto);
    assert(list.take(k + 1).last() == list[k]);
    lemma_file_stays(list, k + 1);
}

/// An icon of the theme is told as one, and a file as a file.
pub proof fn law_logo_holds_what_is_told(s: String)
    ensures
        HeroLogo::Themed(s)@ == LogoModel::Themed(s@),
        HeroLogo::File(s)@ == LogoModel::File(s@),
{
}

} // verus!
