//! The display model: it owns the full record sequence, the date it last
//! derived with, and the indices of the records whose birthday falls on that
//! date; fetch results are applied to every record sharing the result's URL.

use vstd::prelude::*;
use crate::date::Date;
use crate::loader::spec_loaded;
use crate::person::{Person, PersonView, PhotoState, PhotoStateView, spec_banner_text};
use vstd::string::StringExecFns;

verus! {

/// `p`'s birthday falls on `current`: same day and month, the year ignored.
pub open spec fn spec_matches_day(p: PersonView, current: Date) -> bool {
    p.birthday.day == current.day && p.birthday.month == current.month
}

/// The indices, in order, of the records whose birthday falls on `current`.
pub open spec fn spec_today_subset(persons: Seq<PersonView>, current: Date) -> Seq<usize>
    decreases persons.len(),
{
    if persons.len() == 0 {
        Seq::empty()
    } else {
        let rest = spec_today_subset(persons.drop_last(), current);
        if spec_matches_day(persons.last(), current) {
            rest.push((persons.len() - 1) as usize)
        } else {
            rest
        }
    }
}

/// An index is in the today-subset exactly when that record's birthday has
/// the day and month of `current`, whatever its year; the subset lists the
/// indices in strictly increasing order.
pub proof fn lemma_today_subset_exact(persons: Seq<PersonView>, current: Date)
    requires
        persons.len() <= usize::MAX,
    ensures
        forall|i: int|
            0 <= i < persons.len() ==> (spec_today_subset(persons, current).contains(i as usize)
                <==> spec_matches_day(persons[i], current)),
        forall|j: int|
            0 <= j < spec_today_subset(persons, current).len() ==> (#[trigger] spec_today_subset(
                persons,
                current,
            )[j]) < persons.len(),
        forall|j1: int, j2: int|
            0 <= j1 < j2 < spec_today_subset(persons, current).len() ==> spec_today_subset(
                persons,
                current,
            )[j1] < spec_today_subset(persons, current)[j2],
    decreases persons.len(),
{
    if persons.len() > 0 {
        lemma_today_subset_exact(persons.drop_last(), current);
        let rest = spec_today_subset(persons.drop_last(), current);
        let whole = spec_today_subset(persons, current);
        let last_idx = (persons.len() - 1) as usize;
        assert forall|i: int|
            0 <= i < persons.len() implies (whole.contains(i as usize) <==> spec_matches_day(
            persons[i],
            current,
        )) by {
            if i < persons.len() - 1 {
                assert(persons.drop_last()[i] == persons[i]);
                if spec_matches_day(persons[i], current) {
                    assert(rest.contains(i as usize));
                    let j = choose|j: int| 0 <= j < rest.len() && rest[j] == i as usize;
                    assert(whole[j] == i as usize);
                    assert(whole.contains(i as usize));
                }
                if whole.contains(i as usize) {
                    let j = choose|j: int| 0 <= j < whole.len() && whole[j] == i as usize;
                    if j < rest.len() {
                        assert(rest[j] == i as usize);
                        assert(rest.contains(i as usize));
                        assert(persons.drop_last()[i] == persons[i]);
                    } else {
                        assert(whole[j] == last_idx);
                    }
                }
            } else {
                if spec_matches_day(persons[i], current) {
                    assert(whole[whole.len() - 1] == last_idx);
                    assert(whole.contains(last_idx));
                } else {
                    if whole.contains(i as usize) {
                        let j = choose|j: int| 0 <= j < whole.len() && whole[j] == i as usize;
                        assert(rest[j] < persons.drop_last().len());
                    }
                }
            }
        }
        assert forall|j: int|
            0 <= j < whole.len() implies (#[trigger] whole[j]) < persons.len() by {
            if j < rest.len() {
                assert(rest[j] < persons.drop_last().len());
            }
        }
        assert forall|j1: int, j2: int|
            0 <= j1 < j2 < whole.len() implies whole[j1] < whole[j2] by {
            if j2 < rest.len() {
                assert(rest[j1] < rest[j2]);
            } else {
                assert(rest[j1] < persons.drop_last().len());
            }
        }
    }
}

/// `p` with its photo slot replaced.
pub open spec fn spec_with_state(p: PersonView, st: PhotoStateView) -> PersonView {
    PersonView {
        last_name: p.last_name,
        first_name: p.first_name,
        birthday: p.birthday,
        gender: p.gender,
        photo_url: p.photo_url,
        photo_state: st,
    }
}

/// One fetch result applied to a record sequence: every record whose URL is
/// the result's URL gets the new photo state; every other record, among them
/// all records without a URL, is left as it was.
pub open spec fn spec_apply_result(
    persons: Seq<PersonView>,
    st: PhotoStateView,
    url: Seq<char>,
) -> Seq<PersonView> {
    Seq::new(
        persons.len(),
        |i: int|
            if persons[i].photo_url == Some(url) {
                spec_with_state(persons[i], st)
            } else {
                persons[i]
            },
    )
}

/// A fetch result reaches exactly the records sharing its URL, and only
/// their photo slots.
pub proof fn lemma_apply_result_exact(persons: Seq<PersonView>, st: PhotoStateView, url: Seq<char>)
    ensures
        spec_apply_result(persons, st, url).len() == persons.len(),
        forall|i: int|
            0 <= i < persons.len() && persons[i].photo_url == Some(url) ==> spec_apply_result(
                persons,
                st,
                url,
            )[i] == spec_with_state(persons[i], st),
        forall|i: int|
            0 <= i < persons.len() && persons[i].photo_url != Some(url) ==> spec_apply_result(
                persons,
                st,
                url,
            )[i] == persons[i],
{
}

/// A record without a photo URL is never touched by any fetch result.
pub proof fn lemma_no_url_untouched(
    persons: Seq<PersonView>,
    st: PhotoStateView,
    url: Seq<char>,
    i: int,
)
    requires
        0 <= i < persons.len(),
        persons[i].photo_url is None,
    ensures
        spec_apply_result(persons, st, url)[i] == persons[i],
{
}

/// The URLs to fetch, one per record that carries one, in record order.
pub open spec fn spec_fetch_urls(persons: Seq<PersonView>) -> Seq<Seq<char>>
    decreases persons.len(),
{
    if persons.len() == 0 {
        Seq::empty()
    } else {
        let rest = spec_fetch_urls(persons.drop_last());
        match persons.last().photo_url {
            Some(u) => rest.push(u),
            None => rest,
        }
    }
}

/// Every fetched URL belongs to some record, and every record carrying a URL
/// has it fetched; a record without a URL contributes no fetch at all.
pub proof fn lemma_fetch_urls_exact(persons: Seq<PersonView>)
    ensures
        forall|i: int|
            0 <= i < persons.len() ==> ((#[trigger] persons[i].photo_url) matches Some(u)
                ==> spec_fetch_urls(persons).contains(u)),
        forall|j: int|
            0 <= j < spec_fetch_urls(persons).len() ==> exists|i: int|
                0 <= i < persons.len() && persons[i].photo_url == Some(
                    #[trigger] spec_fetch_urls(persons)[j],
                ),
    decreases persons.len(),
{
    if persons.len() > 0 {
        lemma_fetch_urls_exact(persons.drop_last());
        let rest = spec_fetch_urls(persons.drop_last());
        let whole = spec_fetch_urls(persons);
        assert(forall|i: int|
            0 <= i < persons.len() - 1 ==> persons.drop_last()[i] == persons[i]);
        assert forall|i: int|
            0 <= i < persons.len() && (#[trigger] persons[i].photo_url) is Some implies whole
            .contains(persons[i].photo_url.unwrap()) by {
            if i < persons.len() - 1 {
                let u = persons[i].photo_url.unwrap();
                assert(rest.contains(u));
                let j = choose|j: int| 0 <= j < rest.len() && rest[j] == u;
                assert(whole[j] == u);
            } else {
                assert(whole.last() == persons[i].photo_url.unwrap());
            }
        }
    }
}

/// The message that drives one step of the model: the periodic tick with the
/// current date, or one fetch result with its original URL.
pub enum Message {
    UpdateDay(Date),
    DataReceived(Result<Vec<u8>, String>, String),
}

/// The display model.
pub struct BirthdayDisplay {
    /// All records, in file order; never resized after construction.
    pub persons: Vec<Person>,
    /// The date the today-subset was last derived with.
    pub current: Date,
    /// The indices of the records whose birthday falls on `current`.
    pub today_indices: Vec<usize>,
}

impl BirthdayDisplay {
    /// Every record is well formed and the index list is exactly the
    /// today-subset for the stored date.
    pub open spec fn wf(&self) -> bool {
        &&& forall|i: int| 0 <= i < self.persons.len() ==> (#[trigger] self.persons[i]).wf()
        &&& self.current.wf()
        &&& self.today_indices@ == spec_today_subset(self.persons.deep_view(), self.current)
    }
}

/// Computes the indices of the records whose birthday falls on `current`.
fn derive_today_subset(persons: &Vec<Person>, current: &Date) -> (r: Vec<usize>)
    ensures
        r@ == spec_today_subset(persons.deep_view(), *current),
{
    let mut idx: Vec<usize> = Vec::new();
    let mut i: usize = 0;
    while i < persons.len()
        invariant
            i <= persons.len(),
            idx@ == spec_today_subset(persons.deep_view().subrange(0, i as int), *current),
        decreases persons.len() - i,
    {
        proof {
            assert(persons.deep_view().subrange(0, i as int + 1).drop_last() =~= persons
                .deep_view().subrange(0, i as int));
            assert(persons.deep_view().subrange(0, i as int + 1).last() == persons[i as int]@);
        }
        if persons[i].birthday.same_day_month(current) {
            idx.push(i);
        }
        i = i + 1;
    }
    proof {
        assert(persons.deep_view().subrange(0, persons.len() as int) =~= persons.deep_view());
    }
    idx
}

impl BirthdayDisplay {
    /// Builds the model: it takes ownership of the records and derives the
    /// today-subset once, from the date at startup.
    pub fn new(persons: Vec<Person>, current: Date) -> (r: BirthdayDisplay)
        requires
            forall|i: int| 0 <= i < persons.len() ==> (#[trigger] persons[i]).wf(),
            current.wf(),
        ensures
            r.wf(),
            r.persons == persons,
            r.current == current,
    {
        let today_indices = derive_today_subset(&persons, &current);
        BirthdayDisplay { persons, current, today_indices }
    }

    /// Re-derives the today-subset from the given date; the records are left
    /// untouched, so deriving twice with one date changes nothing further.
    pub fn update_day(&mut self, current: Date)
        requires
            old(self).wf(),
            current.wf(),
        ensures
            final(self).wf(),
            final(self).persons == old(self).persons,
            final(self).current == current,
    {
        self.today_indices = derive_today_subset(&self.persons, &current);
        self.current = current;
    }

    /// Applies one fetch result: every record whose URL equals `url` gets
    /// the new photo state, all other records stay as they were, and the
    /// today-subset does not move.
    pub fn apply_fetch_result(&mut self, st: &PhotoState, url: &String)
        requires
            old(self).wf(),
        ensures
            final(self).wf(),
            final(self).persons.deep_view() == spec_apply_result(
                old(self).persons.deep_view(),
                st@,
                url@,
            ),
            final(self).current == old(self).current,
            final(self).today_indices == old(self).today_indices,
    {
        let ghost orig = self.persons.deep_view();
        let mut i: usize = 0;
        while i < self.persons.len()
            invariant
                i <= self.persons.len(),
                self.persons.len() == orig.len(),
                forall|j: int|
                    0 <= j < i ==> (#[trigger] self.persons.deep_view()[j]) == spec_apply_result(
                        orig,
                        st@,
                        url@,
                    )[j],
                forall|j: int|
                    i <= j < orig.len() ==> (#[trigger] self.persons.deep_view()[j]) == orig[j],
                forall|j: int| 0 <= j < self.persons.len() ==> (#[trigger] self.persons[j]).wf(),
                self.current == old(self).current,
                self.today_indices == old(self).today_indices,
            decreases self.persons.len() - i,
        {
            let ghost prev = self.persons.deep_view();
            proof {
                assert(prev[i as int] == orig[i as int]);
            }
            let matches_url = match &self.persons[i].photo_url {
                Some(u) => u.eq(url),
                None => false,
            };
            if matches_url {
                let p = &mut self.persons[i];
                p.photo_state = st.clone();
            }
            proof {
                let ghost k = i as int;
                assert(forall|j: int|
                    0 <= j < orig.len() && j != k ==> self.persons.deep_view()[j] == prev[j]);
                if matches_url {
                    assert(orig[k].photo_url == Some(url@));
                    assert(self.persons.deep_view()[k] == spec_with_state(orig[k], st@));
                } else {
                    assert(orig[k].photo_url != Some(url@));
                    assert(self.persons.deep_view()[k] == orig[k]);
                }
                assert(forall|j: int|
                    0 <= j < self.persons.len() ==> (#[trigger] self.persons[j]).wf());
                assert forall|j: int|
                    0 <= j <= k implies (#[trigger] self.persons.deep_view()[j])
                    == spec_apply_result(orig, st@, url@)[j] by {
                    if j < k {
                        assert(self.persons.deep_view()[j] == prev[j]);
                        assert(prev[j] == spec_apply_result(orig, st@, url@)[j]);
                    }
                }
                assert forall|j: int|
                    k < j < orig.len() implies (#[trigger] self.persons.deep_view()[j]) == orig[j] by {
                    assert(self.persons.deep_view()[j] == prev[j]);
                    assert(prev[j] == orig[j]);
                }
            }
            i = i + 1;
        }
        proof {
            assert(self.persons.deep_view() =~= spec_apply_result(orig, st@, url@));
            assert(spec_today_subset(self.persons.deep_view(), self.current) =~= spec_today_subset(
                orig,
                self.current,
            )) by {
                lemma_apply_preserves_subset(orig, st@, url@, self.current);
            }
        }
    }

    /// The URLs to fetch at startup, one per record that carries one; a
    /// record without a URL is never fetched.
    pub fn urls_to_fetch(&self) -> (r: Vec<String>)
        ensures
            r.deep_view() == spec_fetch_urls(self.persons.deep_view()),
    {
        let mut urls: Vec<String> = Vec::new();
        let mut i: usize = 0;
        while i < self.persons.len()
            invariant
                i <= self.persons.len(),
                urls.deep_view() == spec_fetch_urls(self.persons.deep_view().subrange(0, i as int)),
            decreases self.persons.len() - i,
        {
            proof {
                assert(self.persons.deep_view().subrange(0, i as int + 1).drop_last() =~= self
                    .persons.deep_view().subrange(0, i as int));
                let ghost k = i as int;
                assert(self.persons.deep_view().subrange(0, k + 1).last() == self.persons[k]@);
            }
            match &self.persons[i].photo_url {
                Some(u) => {
                    urls.push(u.clone());
                    proof {
                        assert(urls.deep_view() =~= spec_fetch_urls(
                            self.persons.deep_view().subrange(0, i as int + 1),
                        ));
                    }
                },
                None => {},
            }
            i = i + 1;
        }
        proof {
            assert(self.persons.deep_view().subrange(0, self.persons.len() as int) =~= self.persons
                .deep_view());
        }
        urls
    }

    /// The window title.
    pub fn title(&self) -> (r: String)
        ensures
            r@ == "Birthday Display"@,
    {
        String::from_str("Birthday Display")
    }

    /// The banner lines to render: one per record of the today-subset, in
    /// subset order.
    pub fn today_banner_texts(&self) -> (r: Vec<String>)
        requires
            self.wf(),
        ensures
            r.deep_view() == Seq::new(
                self.today_indices@.len() as nat,
                |j: int|
                    spec_banner_text(
                        self.persons.deep_view()[self.today_indices@[j] as int],
                        self.current,
                    ),
            ),
    {
        let ghost target = Seq::new(
            self.today_indices@.len() as nat,
            |j: int|
                spec_banner_text(
                    self.persons.deep_view()[self.today_indices@[j] as int],
                    self.current,
                ),
        );
        proof {
            lemma_today_subset_exact(self.persons.deep_view(), self.current);
        }
        let mut out: Vec<String> = Vec::new();
        let mut j: usize = 0;
        while j < self.today_indices.len()
            invariant
                self.wf(),
                j <= self.today_indices.len(),
                forall|t: int|
                    0 <= t < self.today_indices@.len() ==> (#[trigger] self.today_indices@[t])
                        < self.persons.len(),
                target == Seq::new(
                    self.today_indices@.len() as nat,
                    |t: int|
                        spec_banner_text(
                            self.persons.deep_view()[self.today_indices@[t] as int],
                            self.current,
                        ),
                ),
                out.len() == j,
                out.deep_view() == target.subrange(0, j as int),
            decreases self.today_indices.len() - j,
        {
            let idx = self.today_indices[j];
            let b = self.persons[idx].banner_text(&self.current);
            let ghost prevout = out.deep_view();
            out.push(b);
            proof {
                assert(out@.len() == j + 1);
                assert(out.deep_view().len() == j + 1);
                assert(self.persons.deep_view()[idx as int] == self.persons[idx as int]@);
                assert forall|t: int| 0 <= t <= j implies out.deep_view()[t] == target[t] by {
                    if t < j {
                        assert(out.deep_view()[t] == prevout[t]);
                        assert(prevout[t] == target.subrange(0, j as int)[t]);
                    } else {
                        assert(out.deep_view()[t] == b@);
                        assert(target[t] == spec_banner_text(
                            self.persons.deep_view()[self.today_indices@[t] as int],
                            self.current,
                        ));
                    }
                }
                assert(out.deep_view() =~= target.subrange(0, j as int + 1));
            }
            j = j + 1;
        }
        proof {
            assert(target.subrange(0, self.today_indices@.len() as int) =~= target);
        }
        out
    }

    /// One step of the model: a tick re-derives the today-subset from the
    /// date it carries; a fetch result is applied to the records sharing its
    /// URL.
    pub fn update(&mut self, msg: Message)
        requires
            old(self).wf(),
            (msg matches Message::UpdateDay(d) ==> d.wf()),
        ensures
            final(self).wf(),
            (match msg {
                Message::UpdateDay(d) => {
                    &&& final(self).persons == old(self).persons
                    &&& final(self).current == d
                },
                Message::DataReceived(res, url) => {
                    &&& final(self).persons.deep_view() == spec_apply_result(
                        old(self).persons.deep_view(),
                        spec_result_state(res),
                        url@,
                    )
                    &&& final(self).current == old(self).current
                    &&& final(self).today_indices == old(self).today_indices
                },
            }),
    {
        match msg {
            Message::UpdateDay(d) => {
                self.update_day(d);
            },
            Message::DataReceived(res, url) => {
                let st = state_of_result(res);
                self.apply_fetch_result(&st, &url);
            },
        }
    }
}

/// Replacing photo slots moves no record's birthday, so the today-subset of
/// any date is unchanged.
pub proof fn lemma_apply_preserves_subset(
    persons: Seq<PersonView>,
    st: PhotoStateView,
    url: Seq<char>,
    current: Date,
)
    ensures
        spec_today_subset(spec_apply_result(persons, st, url), current) == spec_today_subset(
            persons,
            current,
        ),
    decreases persons.len(),
{
    if persons.len() > 0 {
        lemma_apply_preserves_subset(persons.drop_last(), st, url, current);
        assert(spec_apply_result(persons, st, url).drop_last() =~= spec_apply_result(
            persons.drop_last(),
            st,
            url,
        ));
    }
}

/// A loaded record whose birthday has the day and month of the current date
/// is always in the derived today-subset, whatever its year.
pub proof fn lemma_loaded_record_included(lines: Seq<Seq<char>>, current: Date, i: int)
    requires
        spec_loaded(lines).len() <= usize::MAX,
        0 <= i < spec_loaded(lines).len(),
        spec_loaded(lines)[i].birthday.day == current.day,
        spec_loaded(lines)[i].birthday.month == current.month,
    ensures
        spec_today_subset(spec_loaded(lines), current).contains(i as usize),
{
    lemma_today_subset_exact(spec_loaded(lines), current);
}

/// A loaded record whose birthday misses the day or the month of the
/// current date is never in the derived today-subset.
pub proof fn lemma_loaded_record_excluded(lines: Seq<Seq<char>>, current: Date, i: int)
    requires
        spec_loaded(lines).len() <= usize::MAX,
        0 <= i < spec_loaded(lines).len(),
        spec_loaded(lines)[i].birthday.day != current.day || spec_loaded(
            lines,
        )[i].birthday.month != current.month,
    ensures
        !spec_today_subset(spec_loaded(lines), current).contains(i as usize),
{
    lemma_today_subset_exact(spec_loaded(lines), current);
}

/// The placeholder a failed fetch leaves in place of an image.
pub open spec fn spec_placeholder() -> Seq<char> {
    "[failed to load image]"@
}

/// The placeholder text shown when an image could not be loaded.
pub fn placeholder_text() -> (r: String)
    ensures
        r@ == spec_placeholder(),
{
    String::from_str("[failed to load image]")
}

/// The photo state a fetch result carries: the bytes on success, the
/// failure message otherwise.
pub open spec fn spec_result_state(res: Result<Vec<u8>, String>) -> PhotoStateView {
    match res {
        Ok(b) => PhotoStateView::Loaded(b@),
        Err(m) => PhotoStateView::Failed(m@),
    }
}

/// Turns a fetch result into the photo state it leaves behind.
pub fn state_of_result(res: Result<Vec<u8>, String>) -> (r: PhotoState)
    ensures
        r@ == spec_result_state(res),
{
    match res {
        Ok(b) => PhotoState::Loaded(b),
        Err(m) => PhotoState::Failed(m),
    }
}

/// Resolves one finished fetch: a full payload becomes the image bytes, any
/// failure becomes the fixed placeholder text.
pub fn fetch_outcome(data: Option<Vec<u8>>) -> (r: Result<Vec<u8>, String>)
    ensures
        (data matches Some(b) ==> (r matches Ok(rb) && rb == b)),
        (data is None ==> (r matches Err(m) && m@ == spec_placeholder())),
{
    match data {
        Some(b) => Ok(b),
        None => Err(placeholder_text()),
    }
}

} // verus!
