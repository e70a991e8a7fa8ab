use vstd::prelude::*;
use vstd::string::StringExecFns;
use crate::app_error::{resource_not_found, AppError, AppErrorView, AppResult};
use crate::entities::beta_applicant::{BetaApplicant, BetaApplicantView, optional_text};
use crate::entities::mailchimp::{masked, truncate_public_key};

verus! {

/// Whether `c` is one of the 62 characters a to z, A to Z and 0 to 9.
pub open spec fn is_alphanumeric(c: char) -> bool {
    ('a' <= c <= 'z') || ('A' <= c <= 'Z') || ('0' <= c <= '9')
}

/// One character drawn by `rand`'s `Alphanumeric` distribution from the
/// thread-local generator. Which character comes is left open; the
/// distribution only ever hands out ASCII letters and digits.
#[verifier::external_body]
fn random_alphanumeric() -> (c: char)
    ensures
        is_alphanumeric(c),
{
    char::from(rand::Rng::sample(&mut rand::rng(), rand::distr::Alphanumeric))
}

/// The number of characters of a referral code.
pub const REFERRAL_CODE_LENGTH: usize = 6;

/// Whether `code` has the shape of a referral code: 6 letters and digits.
pub open spec fn is_referral_code(code: Seq<char>) -> bool {
    code.len() == REFERRAL_CODE_LENGTH && forall|i: int|
        0 <= i < code.len() ==> is_alphanumeric(#[trigger] code[i])
}

/// Draws a fresh referral code. The code is not held against the codes in
/// use: a collision shows when the applicant is inserted.
pub fn generate_referral_code() -> (code: String)
    ensures
        is_referral_code(code@),
{
    let mut code = String::new();
    let mut i: usize = 0;
    while i < REFERRAL_CODE_LENGTH
        invariant
            i <= REFERRAL_CODE_LENGTH,
            code@.len() == i,
            forall|k: int| 0 <= k < code@.len() ==> is_alphanumeric(#[trigger] code@[k]),
        decreases REFERRAL_CODE_LENGTH - i,
    {
        let c = random_alphanumeric();
        code.push(c);
        i = i + 1;
    }
    code
}

/// An applicant as it is stored: who referred them is kept as the
/// identifier of the referrer.
#[derive(Debug)]
pub struct BetaApplicantDb {
    pub id: i32,
    pub public_key: String,
    pub email: Option<String>,
    pub created_at: i64,
    pub referral_code: String,
    pub referred_by_id: Option<i32>,
}

/// A stored applicant as a mathematical value.
pub struct BetaApplicantDbView {
    pub id: int,
    pub public_key: Seq<char>,
    pub email: Option<Seq<char>>,
    pub created_at: int,
    pub referral_code: Seq<char>,
    pub referred_by_id: Option<int>,
}

impl View for BetaApplicantDb {
    type V = BetaApplicantDbView;

    open spec fn view(&self) -> BetaApplicantDbView {
        BetaApplicantDbView {
            id: self.id as int,
            public_key: self.public_key@,
            email: optional_text(self.email),
            created_at: self.created_at as int,
            referral_code: self.referral_code@,
            referred_by_id: match self.referred_by_id {
                Some(id) => Some(id as int),
                None => None,
            },
        }
    }
}

/// The views of a run of stored applicants.
pub open spec fn applicant_views(rows: Seq<BetaApplicantDb>) -> Seq<BetaApplicantDbView> {
    rows.map_values(|row: BetaApplicantDb| row@)
}

pub open spec fn has_public_key(rows: Seq<BetaApplicantDbView>, public_key: Seq<char>) -> bool {
    exists|i: int| 0 <= i < rows.len() && (#[trigger] rows[i]).public_key == public_key
}

pub open spec fn has_referral_code(rows: Seq<BetaApplicantDbView>, code: Seq<char>) -> bool {
    exists|i: int| 0 <= i < rows.len() && (#[trigger] rows[i]).referral_code == code
}

/// The masked key of the applicant with identifier `referred_by_id`, where
/// there is such an applicant.
pub open spec fn referrer_wallet(rows: Seq<BetaApplicantDbView>, referred_by_id: Option<int>) -> Option<
    Seq<char>,
> {
    match referred_by_id {
        Some(id) => if 1 <= id <= rows.len() {
            Some(masked(rows[id - 1].public_key))
        } else {
            None
        },
        None => None,
    }
}

/// The applicant that the stored row `row` stands for among `rows`.
pub open spec fn applicant_of(rows: Seq<BetaApplicantDbView>, row: BetaApplicantDbView) -> BetaApplicantView {
    BetaApplicantView {
        id: row.id,
        public_key: row.public_key,
        email: row.email,
        created_at: row.created_at,
        referral_code: row.referral_code,
        referred_by: referrer_wallet(rows, row.referred_by_id),
    }
}

/// The number of applicants among `rows` that were referred by `id`.
pub open spec fn referral_count(rows: Seq<BetaApplicantDbView>, id: int) -> nat
    decreases rows.len(),
{
    if rows.len() == 0 {
        0
    } else {
        referral_count(rows.drop_last(), id) + if rows.last().referred_by_id == Some(id) {
            1nat
        } else {
            0nat
        }
    }
}

/// Nobody referred more applicants than there are.
pub proof fn lemma_referral_count_bound(rows: Seq<BetaApplicantDbView>, id: int)
    ensures
        referral_count(rows, id) <= rows.len(),
    decreases rows.len(),
{
    if rows.len() > 0 {
        lemma_referral_count_bound(rows.drop_last(), id);
    }
}

/// The row of a new applicant.
pub open spec fn fresh_applicant(
    id: int,
    public_key: Seq<char>,
    referral_code: Seq<char>,
    referred_by_id: Option<int>,
    created_at: i64,
) -> BetaApplicantDbView {
    BetaApplicantDbView {
        id,
        public_key,
        email: None,
        created_at: created_at as int,
        referral_code,
        referred_by_id,
    }
}

fn copy_text(text: &Option<String>) -> (copy: Option<String>)
    ensures
        optional_text(copy) == optional_text(*text),
{
    match text {
        Some(s) => Some(s.clone()),
        None => None,
    }
}

/// The applicants: identifiers counted from 1 in the order of arrival, and no
/// public key or referral code twice.
pub struct Applicants {
    rows: Vec<BetaApplicantDb>,
}

impl View for Applicants {
    type V = Seq<BetaApplicantDbView>;

    closed spec fn view(&self) -> Seq<BetaApplicantDbView> {
        applicant_views(self.rows@)
    }
}

impl Applicants {
    pub open spec fn wf(&self) -> bool {
        &&& self@.len() <= i32::MAX
        &&& forall|i: int| 0 <= i < self@.len() ==> (#[trigger] self@[i]).id == i + 1
        &&& forall|i: int, j: int|
            0 <= i < j < self@.len() ==> (#[trigger] self@[i]).public_key != (
            #[trigger] self@[j]).public_key && self@[i].referral_code != self@[j].referral_code
    }

    pub fn new() -> (applicants: Applicants)
        ensures
            applicants.wf(),
            applicants@ == Seq::<BetaApplicantDbView>::empty(),
    {
        let applicants = Applicants { rows: Vec::new() };
        assert(applicants@ =~= Seq::<BetaApplicantDbView>::empty());
        applicants
    }

    fn position_of_public_key(&self, public_key: &String) -> (at: Option<usize>)
        ensures
            at is Some <==> has_public_key(self@, public_key@),
            at matches Some(i) ==> i < self@.len() && self@[i as int].public_key == public_key@,
    {
        let mut i: usize = 0;
        while i < self.rows.len()
            invariant
                i <= self.rows.len(),
                self@.len() == self.rows.len(),
                forall|k: int| 0 <= k < i ==> (#[trigger] self@[k]).public_key != public_key@,
            decreases self.rows.len() - i,
        {
            if self.rows[i].public_key == *public_key {
                assert(self@[i as int].public_key == public_key@);
                return Some(i);
            }
            i = i + 1;
        }
        None
    }

    fn position_of_referral_code(&self, code: &String) -> (at: Option<usize>)
        ensures
            at is Some <==> has_referral_code(self@, code@),
            at matches Some(i) ==> i < self@.len() && self@[i as int].referral_code == code@,
    {
        let mut i: usize = 0;
        while i < self.rows.len()
            invariant
                i <= self.rows.len(),
                self@.len() == self.rows.len(),
                forall|k: int| 0 <= k < i ==> (#[trigger] self@[k]).referral_code != code@,
            decreases self.rows.len() - i,
        {
            if self.rows[i].referral_code == *code {
                assert(self@[i as int].referral_code == code@);
                return Some(i);
            }
            i = i + 1;
        }
        None
    }

    /// The key of the referrer as it is shown: masked, and absent where
    /// nobody referred or the referrer cannot be read.
    pub fn get_referrer_wallet(&self, referred_by_id: Option<i32>) -> (wallet: Option<String>)
        requires
            self.wf(),
        ensures
            optional_text(wallet) == referrer_wallet(
                self@,
                match referred_by_id {
                    Some(id) => Some(id as int),
                    None => None,
                },
            ),
    {
        match referred_by_id {
            Some(id) => {
                if 1 <= id && (id as usize) <= self.rows.len() {
                    let at = (id - 1) as usize;
                    assert(self@[at as int].public_key == self.rows@[at as int].public_key@);
                    Some(truncate_public_key(self.rows[at].public_key.as_str()))
                } else {
                    None
                }
            },
            None => None,
        }
    }

    /// Turns the stored row at `at` into the applicant it stands for.
    fn convert_to_beta_applicant(&self, at: usize) -> (applicant: BetaApplicant)
        requires
            self.wf(),
            at < self@.len(),
        ensures
            applicant@ == applicant_of(self@, self@[at as int]),
    {
        let row = &self.rows[at];
        assert(self@[at as int] == row@);
        let referred_by = self.get_referrer_wallet(row.referred_by_id);
        BetaApplicant {
            id: row.id,
            public_key: row.public_key.clone(),
            email: copy_text(&row.email),
            created_at: row.created_at,
            referral_code: row.referral_code.clone(),
            referred_by,
        }
    }

    /// Reads the applicant with identifier `id`.
    pub fn read_beta_applicant_by_id(&self, id: i32) -> (result: AppResult<BetaApplicant>)
        requires
            self.wf(),
        ensures
            result is Ok <==> 1 <= id <= self@.len(),
            result matches Ok(applicant) ==> applicant@ == applicant_of(self@, self@[id - 1]),
            result matches Err(e) ==> e@ == resource_not_found(),
    {
        if 1 <= id && (id as usize) <= self.rows.len() {
            Ok(self.convert_to_beta_applicant((id - 1) as usize))
        } else {
            Err(AppError::not_found())
        }
    }

    /// Reads the applicant with key `public_key`.
    pub fn read_beta_applicant_by_public_key(&self, public_key: &str) -> (result: AppResult<
        BetaApplicant,
    >)
        requires
            self.wf(),
        ensures
            result is Ok <==> has_public_key(self@, public_key@),
            result matches Ok(applicant) ==> applicant.public_key@ == public_key@ && exists|i: int|
                0 <= i < self@.len() && applicant@ == applicant_of(self@, #[trigger] self@[i]),
            result matches Err(e) ==> e@ == resource_not_found(),
    {
        let key = public_key.to_owned();
        match self.position_of_public_key(&key) {
            Some(i) => Ok(self.convert_to_beta_applicant(i)),
            None => Err(AppError::not_found()),
        }
    }

    /// Resolves a referral code to the applicant it belongs to.
    pub fn read_beta_applicant_by_referral_code(&self, referral_code: &str) -> (result: AppResult<
        BetaApplicant,
    >)
        requires
            self.wf(),
        ensures
            result is Ok <==> has_referral_code(self@, referral_code@),
            result matches Ok(applicant) ==> applicant.referral_code@ == referral_code@
                && exists|i: int|
                0 <= i < self@.len() && applicant@ == applicant_of(self@, #[trigger] self@[i]),
            result matches Err(e) ==> e@ == resource_not_found(),
    {
        let code = referral_code.to_owned();
        match self.position_of_referral_code(&code) {
            Some(i) => Ok(self.convert_to_beta_applicant(i)),
            None => Err(AppError::not_found()),
        }
    }

    /// The number of applicants.
    pub fn count_beta_applicants(&self) -> (count: i64)
        requires
            self.wf(),
        ensures
            count == self@.len(),
    {
        self.rows.len() as i64
    }

    /// The number of applicants that `id` referred.
    pub fn count_referrals(&self, id: i32) -> (count: i64)
        requires
            self.wf(),
        ensures
            count == referral_count(self@, id as int),
    {
        let mut count: i64 = 0;
        let mut i: usize = 0;
        while i < self.rows.len()
            invariant
                self.wf(),
                i <= self.rows.len(),
                self@.len() == self.rows.len(),
                count == referral_count(self@.take(i as int), id as int),
                count <= i,
            decreases self.rows.len() - i,
        {
            assert(self@.take(i + 1).drop_last() == self@.take(i as int));
            assert(self@.take(i + 1).last() == self.rows@[i as int]@);
            match self.rows[i].referred_by_id {
                Some(by) => {
                    if by == id {
                        count = count + 1;
                    }
                },
                None => {},
            }
            i = i + 1;
        }
        assert(self@.take(i as int) == self@);
        count
    }

    /// Sets the e-mail address of the applicant with key `public_key`.
    pub fn update_beta_applicant(&mut self, public_key: &str, email: &str) -> (result: AppResult<
        BetaApplicant,
    >)
        requires
            old(self).wf(),
        ensures
            final(self).wf(),
            result is Ok <==> has_public_key(old(self)@, public_key@),
            result matches Err(e) ==> e@ == resource_not_found() && final(self)@ == old(self)@,
            result matches Ok(applicant) ==> exists|i: int|
                0 <= i < old(self)@.len() && (#[trigger] old(self)@[i]).public_key == public_key@
                    && final(self)@ == old(self)@.update(
                    i,
                    BetaApplicantDbView { email: Some(email@), ..old(self)@[i] },
                ) && applicant@ == applicant_of(final(self)@, final(self)@[i]),
    {
        let key = public_key.to_owned();
        match self.position_of_public_key(&key) {
            Some(i) => {
                let ghost before = self@;
                let row = &self.rows[i];
                assert(before[i as int] == row@);
                let changed = BetaApplicantDb {
                    id: row.id,
                    public_key: row.public_key.clone(),
                    email: Some(email.to_owned()),
                    created_at: row.created_at,
                    referral_code: row.referral_code.clone(),
                    referred_by_id: row.referred_by_id,
                };
                self.rows[i] = changed;
                proof {
                    let after = before.update(
                        i as int,
                        BetaApplicantDbView { email: Some(email@), ..before[i as int] },
                    );
                    assert(self@ =~= after);
                    assert forall|a: int| 0 <= a < after.len() implies (#[trigger] after[a]).id == a
                        + 1 by {
                        assert(after[a].id == before[a].id);
                    }
                    assert forall|a: int, b: int| 0 <= a < b < after.len() implies (
                    #[trigger] after[a]).public_key != (#[trigger] after[b]).public_key
                        && after[a].referral_code != after[b].referral_code by {
                        assert(after[a].public_key == before[a].public_key
                            && after[a].referral_code == before[a].referral_code);
                        assert(after[b].public_key == before[b].public_key
                            && after[b].referral_code == before[b].referral_code);
                    }
                }
                Ok(self.convert_to_beta_applicant(i))
            },
            None => Err(AppError::not_found()),
        }
    }

    /// Creates the applicant with key `public_key` and the fresh referral code
    /// `new_referral_code`. A referral code that was supplied must belong to
    /// an applicant. A key that is there already, or a fresh code that is in
    /// use, makes no second row: the applicant with that key is read instead,
    /// and where only the code collided there is none to read.
    pub fn create_beta_applicant(
        &mut self,
        public_key: &str,
        referral_code: Option<&str>,
        new_referral_code: String,
        created_at: i64,
    ) -> (result: AppResult<BetaApplicant>)
        requires
            old(self).wf(),
        ensures
            final(self).wf(),
            creation_result(
                old(self)@,
                final(self)@,
                result,
                public_key@,
                supplied_code(referral_code),
                new_referral_code@,
                created_at,
            ),
    {
        let referrer_id: Option<i32> = match referral_code {
            Some(code) => {
                let code = code.to_owned();
                match self.position_of_referral_code(&code) {
                    Some(at) => {
                        assert(self@[at as int].id == at + 1);
                        Some(self.rows[at].id)
                    },
                    None => {
                        return Err(AppError::not_found());
                    },
                }
            },
            None => None,
        };
        let key = public_key.to_owned();
        match self.position_of_public_key(&key) {
            Some(i) => {
                return Ok(self.convert_to_beta_applicant(i));
            },
            None => {},
        }
        if self.position_of_referral_code(&new_referral_code).is_some() {
            return Err(AppError::not_found());
        }
        if self.rows.len() >= i32::MAX as usize {
            return Err(AppError::Database(String::from_str("no applicant identifier is left")));
        }
        let ghost before = self@;
        let id = (self.rows.len() + 1) as i32;
        let row = BetaApplicantDb {
            id,
            public_key: key,
            email: None,
            created_at,
            referral_code: new_referral_code,
            referred_by_id: referrer_id,
        };
        self.rows.push(row);
        proof {
            assert(self@.drop_last() =~= before);
            assert(self@.last() == row@);
            assert forall|a: int| 0 <= a < self@.len() implies (#[trigger] self@[a]).id == a
                + 1 by {
                if a < before.len() {
                    assert(self@[a] == before[a]);
                }
            }
            assert forall|a: int, b: int| 0 <= a < b < self@.len() implies (
            #[trigger] self@[a]).public_key != (#[trigger] self@[b]).public_key
                && self@[a].referral_code != self@[b].referral_code by {
                assert(self@[a] == before[a]);
                if b < before.len() {
                    assert(self@[b] == before[b]);
                }
            }
        }
        Ok(self.convert_to_beta_applicant(self.rows.len() - 1))
    }

    /// Creates an applicant as `create_beta_applicant` does, with a fresh
    /// referral code that is drawn here: whatever code is drawn, the creation
    /// ends as it does for that code.
    pub fn create_with_referral(
        &mut self,
        public_key: &str,
        referral_code: Option<&str>,
        created_at: i64,
    ) -> (result: AppResult<BetaApplicant>)
        requires
            old(self).wf(),
        ensures
            final(self).wf(),
            exists|code: Seq<char>|
                is_referral_code(code) && #[trigger] creation_result(
                    old(self)@,
                    final(self)@,
                    result,
                    public_key@,
                    supplied_code(referral_code),
                    code,
                    created_at,
                ),
    {
        let code = generate_referral_code();
        let ghost drawn = code@;
        let result = self.create_beta_applicant(public_key, referral_code, code, created_at);
        assert(creation_result(
            old(self)@,
            self@,
            result,
            public_key@,
            supplied_code(referral_code),
            drawn,
            created_at,
        ));
        result
    }
}

/// The characters of a referral code that was supplied.
pub open spec fn supplied_code(referral_code: Option<&str>) -> Option<Seq<char>> {
    match referral_code {
        Some(code) => Some(code@),
        None => None,
    }
}

/// Whether a referral code was supplied that belongs to nobody.
pub open spec fn unknown_code(rows: Seq<BetaApplicantDbView>, referral_code: Option<Seq<char>>) -> bool {
    referral_code is Some && !has_referral_code(rows, referral_code->0)
}

/// The error of a creation that finds no identifier left to give.
pub open spec fn identifiers_exhausted() -> AppErrorView {
    AppErrorView::Database("no applicant identifier is left"@)
}

/// The ways in which creating an applicant can end.
pub enum CreateOutcome {
    /// A referral code was supplied and belongs to nobody.
    UnknownReferralCode,
    /// The key is registered already.
    Existing,
    /// The key is new and the fresh referral code is in use.
    Collision,
    /// No identifier is left.
    Full,
    /// A row was added.
    Inserted,
}

/// How creating an applicant ends on `rows`.
pub open spec fn create_outcome(
    rows: Seq<BetaApplicantDbView>,
    public_key: Seq<char>,
    referral_code: Option<Seq<char>>,
    new_referral_code: Seq<char>,
) -> CreateOutcome {
    if unknown_code(rows, referral_code) {
        CreateOutcome::UnknownReferralCode
    } else if has_public_key(rows, public_key) {
        CreateOutcome::Existing
    } else if has_referral_code(rows, new_referral_code) {
        CreateOutcome::Collision
    } else if rows.len() >= i32::MAX {
        CreateOutcome::Full
    } else {
        CreateOutcome::Inserted
    }
}

/// What creating an applicant with the fresh referral code
/// `new_referral_code` leaves behind and returns. Only a creation that adds a
/// row changes anything: the row comes last, with the next identifier, the
/// key, no e-mail address, the time of creation, the fresh code, and the
/// applicant who owns the supplied referral code as referrer.
pub open spec fn creation_result(
    before: Seq<BetaApplicantDbView>,
    after: Seq<BetaApplicantDbView>,
    result: AppResult<BetaApplicant>,
    public_key: Seq<char>,
    referral_code: Option<Seq<char>>,
    new_referral_code: Seq<char>,
    created_at: i64,
) -> bool {
    match create_outcome(before, public_key, referral_code, new_referral_code) {
        CreateOutcome::UnknownReferralCode => {
            &&& after == before
            &&& result matches Err(e) && e@ == resource_not_found()
        },
        CreateOutcome::Existing => {
            &&& after == before
            &&& result matches Ok(applicant) && applicant.public_key@ == public_key
                && exists|i: int|
                0 <= i < before.len() && applicant@ == applicant_of(before, #[trigger] before[i])
        },
        CreateOutcome::Collision => {
            &&& after == before
            &&& result matches Err(e) && e@ == resource_not_found()
        },
        CreateOutcome::Full => {
            &&& after == before
            &&& result matches Err(e) && e@ == identifiers_exhausted()
        },
        CreateOutcome::Inserted => {
            &&& after.len() == before.len() + 1
            &&& after.drop_last() == before
            &&& after.last().id == before.len() + 1
            &&& after.last().public_key == public_key
            &&& after.last().email is None
            &&& after.last().created_at == created_at
            &&& after.last().referral_code == new_referral_code
            &&& match referral_code {
                Some(code) => after.last().referred_by_id matches Some(r) && 1 <= r <= before.len()
                    && before[r - 1].referral_code == code,
                None => after.last().referred_by_id is None,
            }
            &&& result matches Ok(applicant) && applicant@ == applicant_of(after, after.last())
        },
    }
}

} // verus!
