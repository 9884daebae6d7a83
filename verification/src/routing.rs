//! Which account answers a request. A key that the gateway gave out draws on the pool of
//! accounts; any other credential is passed on to the backend.
use crate::mapper::text_view;
use vstd::prelude::*;
use vstd::string::*;

verus! {

/// What the list of accounts says of one of them.
#[derive(Debug)]
pub struct AccountSummary {
    pub id: String,
    pub is_active: bool,
    pub is_proxy_disabled: bool,
}

/// What is left of one model for an account.
#[derive(Debug)]
pub struct ModelQuota {
    pub name: String,
    pub percentage: i64,
    pub internal_model: Option<String>,
}

/// What an account may use. Where two rules forward the same name, the later counts.
#[derive(Debug)]
pub struct Quota {
    pub model_forwarding_rules: Vec<(String, String)>,
    pub models: Vec<ModelQuota>,
}

/// An account.
#[derive(Debug)]
pub struct Account {
    pub id: String,
    pub email: String,
    pub refresh_token: String,
    pub access_token: String,
    pub quota: Option<Quota>,
}

/// What answers a request: with which token, from which account, by which of the backend's
/// models, and under which name.
#[derive(Debug)]
pub struct Grant {
    pub refresh_token: String,
    pub account_id: Option<String>,
    pub model: String,
    pub email: String,
}

/// What a grant says.
pub struct GrantView {
    pub refresh_token: Seq<char>,
    pub account_id: Option<Seq<char>>,
    pub model: Seq<char>,
    pub email: Seq<char>,
}

impl View for Grant {
    type V = GrantView;

    open spec fn view(&self) -> GrantView {
        GrantView {
            refresh_token: self.refresh_token@,
            account_id: text_view(self.account_id),
            model: self.model@,
            email: self.email@,
        }
    }
}

// ---- One account --------------------------------------------------------------------------

/// What the forwarding rules say.
pub open spec fn rules_of(rules: Seq<(String, String)>) -> Map<Seq<char>, Seq<char>>
    decreases rules.len(),
{
    if rules.len() == 0 {
        Map::empty()
    } else {
        rules_of(rules.drop_last()).insert(rules.last().0@, rules.last().1@)
    }
}

/// The name that the rules make of a model's name.
pub open spec fn forwarded(rules: Map<Seq<char>, Seq<char>>, name: Seq<char>) -> Seq<char> {
    if rules.contains_key(name) {
        rules[name]
    } else {
        name
    }
}

/// The model `name` is there, and there is some left of it where the pool pays.
pub open spec fn serves(model: ModelQuota, name: Seq<char>, from_pool: bool) -> bool {
    &&& model.name@ == name
    &&& model.percentage > 0 || !from_pool
    &&& model.internal_model is Some
}

/// The backend's name of the first model that serves.
pub open spec fn first_serving(models: Seq<ModelQuota>, name: Seq<char>, from_pool: bool) -> Option<
    Seq<char>,
>
    decreases models.len(),
{
    if models.len() == 0 {
        None
    } else if serves(models[0], name, from_pool) {
        text_view(models[0].internal_model)
    } else {
        first_serving(models.skip(1), name, from_pool)
    }
}

/// The name that the rules make of a model's name.
pub fn forward(rules: &Vec<(String, String)>, name: &String) -> (r: String)
    ensures
        r@ == forwarded(rules_of(rules@), name@),
{
    let mut i: usize = rules.len();
    assert(rules@.take(i as int) == rules@);
    while i > 0
        invariant
            i <= rules@.len(),
            forwarded(rules_of(rules@), name@) == forwarded(
                rules_of(rules@.take(i as int)),
                name@,
            ),
        decreases i,
    {
        i -= 1;
        assert(rules@.take(i + 1).drop_last() == rules@.take(i as int));
        if rules[i].0 == *name {
            return rules[i].1.clone();
        }
    }
    assert(rules@.take(0) =~= Seq::empty());
    name.clone()
}

/// The backend's name of the first model that serves.
pub fn find_model(models: &Vec<ModelQuota>, name: &String, from_pool: bool) -> (r: Option<String>)
    ensures
        text_view(r) == first_serving(models@, name@, from_pool),
{
    let mut i: usize = 0;
    assert(models@.skip(0) == models@);
    while i < models.len()
        invariant
            i <= models@.len(),
            first_serving(models@, name@, from_pool) == first_serving(
                models@.skip(i as int),
                name@,
                from_pool,
            ),
        decreases models@.len() - i,
    {
        let model = &models[i];
        assert(models@.skip(i as int)[0] == *model);
        assert(models@.skip(i as int).skip(1) == models@.skip(i + 1));
        if model.name == *name && (model.percentage > 0 || !from_pool) {
            if let Some(internal) = &model.internal_model {
                return Some(internal.clone());
            }
        }
        i += 1;
    }
    None
}

// ---- The search ---------------------------------------------------------------------------

/// The search for an account.
#[derive(Debug)]
pub struct Router {
    key: String,
    is_virtual_key: bool,
    model_name: String,
    target_model_name: String,
    summaries: Vec<AccountSummary>,
    position: usize,
}

/// What a search knows.
pub struct RouterView {
    pub key: Seq<char>,
    pub from_pool: bool,
    pub model: Seq<char>,
    pub target: Seq<char>,
    pub waiting: Seq<AccountSummary>,
}

impl View for Router {
    type V = RouterView;

    closed spec fn view(&self) -> RouterView {
        RouterView {
            key: self.key@,
            from_pool: self.is_virtual_key,
            model: self.model_name@,
            target: self.target_model_name@,
            waiting: self.summaries@.skip(self.position as int),
        }
    }
}

/// What the search asks for, or what it found.
#[derive(Debug)]
pub enum RouteAction {
    /// The account with this identifier is to be looked up.
    Fetch(String),
    /// The request is answered by this.
    Granted(Grant),
    /// Nothing answers the request, for this reason.
    Refused(String),
}

/// What the search asks for, or what it found.
pub enum RouteView {
    Fetch(Seq<char>),
    Granted(GrantView),
    Refused(Seq<char>),
}

impl View for RouteAction {
    type V = RouteView;

    open spec fn view(&self) -> RouteView {
        match self {
            RouteAction::Fetch(id) => RouteView::Fetch(id@),
            RouteAction::Granted(grant) => RouteView::Granted(grant@),
            RouteAction::Refused(reason) => RouteView::Refused(reason@),
        }
    }
}

/// An account that is looked at: any, but for the pool only an active one that is not disabled.
pub open spec fn is_considered(summary: AccountSummary, from_pool: bool) -> bool {
    summary.is_active && !summary.is_proxy_disabled || !from_pool
}

/// The account is in question: any for the pool, and else the one whose token the credential is.
pub open spec fn is_addressed(router: RouterView, account: Account) -> bool {
    router.from_pool || account.refresh_token@ == router.key || account.access_token@ == router.key
}

/// The name that is searched for once an account has been looked at.
pub open spec fn target_after(router: RouterView, account: Option<Account>) -> Seq<char> {
    match account {
        Some(a) => match a.quota {
            Some(q) => if is_addressed(router, a) {
                forwarded(rules_of(q.model_forwarding_rules@), router.target)
            } else {
                router.target
            },
            None => router.target,
        },
        None => router.target,
    }
}

/// What an account gives.
pub open spec fn granted_by(router: RouterView, account: Option<Account>) -> Option<GrantView> {
    match account {
        Some(a) => match a.quota {
            Some(q) => if is_addressed(router, a) {
                match first_serving(q.models@, target_after(router, account), router.from_pool) {
                    Some(model) => Some(
                        GrantView {
                            refresh_token: a.refresh_token@,
                            account_id: Some(a.id@),
                            model,
                            email: a.email@,
                        },
                    ),
                    None => None,
                }
            } else {
                None
            },
            None => None,
        },
        None => None,
    }
}

/// Why nothing answers a request for the model `target`.
pub open spec fn refusal_text(target: Seq<char>) -> Seq<char> {
    "无法为您分配可用的账号，所有账号的 ["@ + target + "] 额度可能已耗尽或未被授权"@
}

/// What comes of a search in which no account answered: a credential of the backend's is passed
/// on, and a key for the pool is refused.
pub open spec fn concluded(router: RouterView) -> RouteView {
    if router.from_pool {
        RouteView::Refused(refusal_text(router.target))
    } else {
        RouteView::Granted(
            GrantView {
                refresh_token: router.key,
                account_id: None,
                model: router.model,
                email: "Direct Access"@,
            },
        )
    }
}

/// The search once it has passed over the accounts that it does not look at.
pub open spec fn advanced(router: RouterView) -> (RouterView, RouteView)
    decreases router.waiting.len(),
{
    if router.waiting.len() == 0 {
        (router, concluded(router))
    } else {
        let rest = RouterView { waiting: router.waiting.skip(1), ..router };
        if is_considered(router.waiting[0], router.from_pool) {
            (rest, RouteView::Fetch(router.waiting[0].id@))
        } else {
            advanced(rest)
        }
    }
}

/// The search once an account has been looked up.
pub open spec fn answered(router: RouterView, account: Option<Account>) -> (RouterView, RouteView) {
    let now = RouterView { target: target_after(router, account), ..router };
    match granted_by(router, account) {
        Some(grant) => (now, RouteView::Granted(grant)),
        None => advanced(now),
    }
}

impl Router {
    /// The position lies within the list.
    pub closed spec fn is_valid(self) -> bool {
        self.position <= self.summaries@.len()
    }

    /// A search for an account that answers a request for `model_name`; `is_virtual_key` tells
    /// whether the gateway gave the credential out.
    pub fn new(
        key: String,
        is_virtual_key: bool,
        model_name: String,
        summaries: Vec<AccountSummary>,
    ) -> (r: Router)
        ensures
            r.is_valid(),
            r@ == (RouterView {
                key: key@,
                from_pool: is_virtual_key,
                model: model_name@,
                target: model_name@,
                waiting: summaries@,
            }),
    {
        let target_model_name: String = model_name.clone();
        let r = Router {
            key,
            is_virtual_key,
            model_name,
            target_model_name,
            summaries,
            position: 0,
        };
        assert(summaries@.skip(0) == summaries@);
        r
    }

    fn conclude(&self) -> (r: RouteAction)
        ensures
            r@ == concluded(self@),
    {
        if self.is_virtual_key {
            let mut reason: String = "无法为您分配可用的账号，所有账号的 [".to_owned();
            reason.append(self.target_model_name.as_str());
            reason.append("] 额度可能已耗尽或未被授权");
            return RouteAction::Refused(reason);
        }
        RouteAction::Granted(
            Grant {
                refresh_token: self.key.clone(),
                account_id: None,
                model: self.model_name.clone(),
                email: "Direct Access".to_owned(),
            },
        )
    }

    /// Goes on to the next account to look at, or ends the search.
    pub fn advance(&mut self) -> (r: RouteAction)
        requires
            old(self).is_valid(),
        ensures
            final(self).is_valid(),
            (final(self)@, r@) == advanced(old(self)@),
    {
        while self.position < self.summaries.len()
            invariant
                self.is_valid(),
                advanced(self@) == advanced(old(self)@),
            decreases self.summaries@.len() - self.position,
        {
            let ghost before = self@;
            let i: usize = self.position;
            self.position = i + 1;
            let summary = &self.summaries[i];
            assert(before.waiting[0] == *summary);
            assert(self@.waiting == before.waiting.skip(1));
            if (summary.is_active && !summary.is_proxy_disabled) || !self.is_virtual_key {
                return RouteAction::Fetch(summary.id.clone());
            }
        }
        self.conclude()
    }

    /// Takes the account that was looked up, `None` where there is none.
    pub fn fetched(&mut self, account: Option<Account>) -> (r: RouteAction)
        requires
            old(self).is_valid(),
        ensures
            final(self).is_valid(),
            (final(self)@, r@) == answered(old(self)@, account),
    {
        if let Some(a) = &account {
            if self.is_virtual_key || a.refresh_token == self.key || a.access_token == self.key {
                if let Some(quota) = &a.quota {
                    self.target_model_name = forward(
                        &quota.model_forwarding_rules,
                        &self.target_model_name,
                    );
                    let model = find_model(
                        &quota.models,
                        &self.target_model_name,
                        self.is_virtual_key,
                    );
                    if let Some(model) = model {
                        return RouteAction::Granted(
                            Grant {
                                refresh_token: a.refresh_token.clone(),
                                account_id: Some(a.id.clone()),
                                model,
                                email: a.email.clone(),
                            },
                        );
                    }
                }
            }
        }
        assert(self@ == (RouterView { target: target_after(old(self)@, account), ..old(self)@ }));
        self.advance()
    }
}

// ---- The whole search ---------------------------------------------------------------------

/// What a search comes to, where `answers` are the accounts behind the waiting ones, in their
/// order.
pub open spec fn outcome(router: RouterView, answers: Seq<Option<Account>>) -> RouteView
    decreases router.waiting.len(),
{
    if router.waiting.len() == 0 {
        concluded(router)
    } else {
        let rest = RouterView { waiting: router.waiting.skip(1), ..router };
        if is_considered(router.waiting[0], router.from_pool) {
            match granted_by(rest, answers[0]) {
                Some(grant) => RouteView::Granted(grant),
                None => outcome(
                    RouterView { target: target_after(rest, answers[0]), ..rest },
                    answers.skip(1),
                ),
            }
        } else {
            outcome(rest, answers.skip(1))
        }
    }
}

/// How many accounts a search passes over before it looks at one.
pub open spec fn passed_over(router: RouterView) -> nat
    decreases router.waiting.len(),
{
    if router.waiting.len() == 0 || is_considered(router.waiting[0], router.from_pool) {
        0
    } else {
        1 + passed_over(RouterView { waiting: router.waiting.skip(1), ..router })
    }
}

/// Step by step the search comes to its outcome: going on does not change it.
pub proof fn law_advance_keeps_outcome(router: RouterView, answers: Seq<Option<Account>>)
    requires
        answers.len() == router.waiting.len(),
    ensures
        match advanced(router).1 {
            RouteView::Fetch(id) => {
                let n = passed_over(router) as int;
                &&& n < router.waiting.len()
                &&& id == router.waiting[n].id@
                &&& is_considered(router.waiting[n], router.from_pool)
                &&& outcome(router, answers) == (match granted_by(advanced(router).0, answers[n]) {
                    Some(grant) => RouteView::Granted(grant),
                    None => outcome(
                        (RouterView {
                            target: target_after(advanced(router).0, answers[n]),
                            ..advanced(router).0
                        }),
                        answers.skip(n + 1),
                    ),
                })
            },
            ended => outcome(router, answers) == ended,
        },
    decreases router.waiting.len(),
{
    if router.waiting.len() > 0 {
        if !is_considered(router.waiting[0], router.from_pool) {
            let rest = RouterView { waiting: router.waiting.skip(1), ..router };
            law_advance_keeps_outcome(rest, answers.skip(1));
            let n = passed_over(rest) as int;
            if advanced(rest).1 is Fetch {
                assert(answers.skip(1)[n] == answers[n + 1]);
                assert(answers.skip(1).skip(n + 1) =~= answers.skip(n + 2));
                assert(rest.waiting[n] == router.waiting[n + 1]);
            }
        }
    }
}

/// A credential that the gateway did not give out is never refused.
pub proof fn law_direct_is_granted(router: RouterView, answers: Seq<Option<Account>>)
    requires
        !router.from_pool,
    ensures
        outcome(router, answers) is Granted,
    decreases router.waiting.len(),
{
    if router.waiting.len() > 0 {
        let rest = RouterView { waiting: router.waiting.skip(1), ..router };
        law_direct_is_granted(
            RouterView { target: target_after(rest, answers[0]), ..rest },
            answers.skip(1),
        );
    }
}

/// The name that is searched for in the account at `i`: that of the request, as the rules forward
/// it of every account that was looked at up to this one.
pub open spec fn searched(router: RouterView, answers: Seq<Option<Account>>, i: int) -> Seq<char>
    decreases i,
{
    let rest = RouterView { waiting: router.waiting.skip(1), ..router };
    let target = if is_considered(router.waiting[0], router.from_pool) {
        target_after(rest, answers[0])
    } else {
        router.target
    };
    if i <= 0 {
        target
    } else {
        searched(RouterView { target, ..rest }, answers.skip(1), i - 1)
    }
}

/// What answers a request out of an account: a considered one that the credential addresses, with
/// a model that bears the name `target` and of which, for the pool, some is left.
pub open spec fn is_backed(
    router: RouterView,
    grant: GrantView,
    summary: AccountSummary,
    account: Option<Account>,
    target: Seq<char>,
) -> bool {
    &&& is_considered(summary, router.from_pool)
    &&& account matches Some(a)
    &&& is_addressed(router, a)
    &&& a.quota matches Some(q)
    &&& grant.refresh_token == a.refresh_token@
    &&& grant.account_id == Some(a.id@)
    &&& grant.email == a.email@
    &&& exists|m: int|
        0 <= m < q.models@.len() && text_view((#[trigger] q.models@[m]).internal_model) == Some(
            grant.model,
        ) && q.models@[m].name@ == target && (q.models@[m].percentage > 0 || !router.from_pool)
}

proof fn lemma_first_serving(models: Seq<ModelQuota>, name: Seq<char>, from_pool: bool)
    ensures
        first_serving(models, name, from_pool) matches Some(model) ==> exists|m: int|
            0 <= m < models.len() && text_view((#[trigger] models[m]).internal_model) == Some(model)
                && models[m].name@ == name && (models[m].percentage > 0 || !from_pool),
    decreases models.len(),
{
    if models.len() > 0 {
        if serves(models[0], name, from_pool) {
            assert(text_view(models[0].internal_model) == first_serving(models, name, from_pool));
        } else {
            lemma_first_serving(models.skip(1), name, from_pool);
            if let Some(model) = first_serving(models, name, from_pool) {
                let rest = models.skip(1);
                let m = choose|m: int|
                    0 <= m < rest.len() && text_view((#[trigger] rest[m]).internal_model) == Some(
                        model,
                    ) && rest[m].name@ == name && (rest[m].percentage > 0 || !from_pool);
                assert(models[m + 1] == rest[m]);
            }
        }
    }
}

/// A grant comes from an account that may give it, unless a credential is passed on that belongs
/// to none. The model bears the name that the request asks for, as the rules forward it; the pool
/// gives only of active accounts that are not disabled, and only of models of which some is left.
pub proof fn law_grant_is_backed(router: RouterView, answers: Seq<Option<Account>>)
    requires
        answers.len() == router.waiting.len(),
    ensures
        outcome(router, answers) matches RouteView::Granted(grant) ==> {
            ||| exists|i: int|
                0 <= i < answers.len() && is_backed(
                    router,
                    grant,
                    #[trigger] router.waiting[i],
                    answers[i],
                    searched(router, answers, i),
                )
            ||| !router.from_pool && RouteView::Granted(grant) == concluded(router)
        },
    decreases router.waiting.len(),
{
    if router.waiting.len() > 0 {
        if let RouteView::Granted(grant) = outcome(router, answers) {
            let rest = RouterView { waiting: router.waiting.skip(1), ..router };
            let considered = is_considered(router.waiting[0], router.from_pool);
            if considered && granted_by(rest, answers[0]) is Some {
                let a = answers[0]->0;
                let q = a.quota->0;
                lemma_first_serving(q.models@, target_after(rest, answers[0]), router.from_pool);
                assert(is_backed(
                    router,
                    grant,
                    router.waiting[0],
                    answers[0],
                    searched(router, answers, 0),
                ));
            } else {
                let next = if considered {
                    RouterView { target: target_after(rest, answers[0]), ..rest }
                } else {
                    rest
                };
                law_grant_is_backed(next, answers.skip(1));
                if exists|i: int|
                    0 <= i < answers.skip(1).len() && is_backed(
                        next,
                        grant,
                        #[trigger] next.waiting[i],
                        answers.skip(1)[i],
                        searched(next, answers.skip(1), i),
                    ) {
                    let i = choose|i: int|
                        0 <= i < answers.skip(1).len() && is_backed(
                            next,
                            grant,
                            #[trigger] next.waiting[i],
                            answers.skip(1)[i],
                            searched(next, answers.skip(1), i),
                        );
                    assert(router.waiting[i + 1] == next.waiting[i]);
                    assert(answers[i + 1] == answers.skip(1)[i]);
                    assert(searched(router, answers, i + 1) == searched(
                        next,
                        answers.skip(1),
                        i,
                    ));
                    assert(is_backed(
                        router,
                        grant,
                        router.waiting[i + 1],
                        answers[i + 1],
                        searched(router, answers, i + 1),
                    ));
                }
            }
        }
    }
}

/// An account that the pool may not use does not matter: without it the search comes to the same.
pub proof fn law_unusable_is_passed_over(router: RouterView, answers: Seq<Option<Account>>)
    requires
        router.waiting.len() > 0,
        router.from_pool,
        !router.waiting[0].is_active || router.waiting[0].is_proxy_disabled,
    ensures
        outcome(router, answers) == outcome(
            (RouterView { waiting: router.waiting.skip(1), ..router }),
            answers.skip(1),
        ),
{
}

// ---- What is searched for, and what answers -----------------------------------------------

/// A name is forwarded as the last rule for it says, and stays where there is none.
pub proof fn law_forward(rules: Seq<(String, String)>, name: Seq<char>, i: int)
    ensures
        (0 <= i < rules.len() && rules[i].0@ == name && forall|j: int|
            i < j < rules.len() ==> (#[trigger] rules[j]).0@ != name) ==> forwarded(
            rules_of(rules),
            name,
        ) == rules[i].1@,
        (forall|j: int| 0 <= j < rules.len() ==> (#[trigger] rules[j]).0@ != name) ==> forwarded(
            rules_of(rules),
            name,
        ) == name,
    decreases rules.len(),
{
    if rules.len() > 0 {
        let front = rules.drop_last();
        let n = rules.len() - 1;
        law_forward(front, name, i);
        assert forall|j: int| 0 <= j < front.len() implies #[trigger] front[j] == rules[j] by {}
        if rules[n].0@ != name {
            if 0 <= i < n && rules[i].0@ == name && (forall|j: int|
                i < j < rules.len() ==> (#[trigger] rules[j]).0@ != name) {
                assert forall|j: int| i < j < front.len() implies (#[trigger] front[j]).0@ != name by {
                    assert(rules[j].0@ != name);
                }
                assert(front[i] == rules[i]);
            }
            if forall|j: int| 0 <= j < rules.len() ==> (#[trigger] rules[j]).0@ != name {
                assert forall|j: int| 0 <= j < front.len() implies (#[trigger] front[j]).0@ != name by {
                    assert(rules[j].0@ != name);
                }
            }
        } else {
            assert(i < n && rules[i].0@ == name ==> !(forall|j: int|
                i < j < rules.len() ==> (#[trigger] rules[j]).0@ != name));
        }
    }
}

/// Of a quota the first model serves that bears the name, has a name of the backend's, and of
/// which, for the pool, something is left, however much; where there is none, nothing serves.
pub proof fn law_first_serving(models: Seq<ModelQuota>, name: Seq<char>, from_pool: bool, i: int)
    ensures
        (0 <= i < models.len() && models[i].name@ == name && (models[i].percentage > 0 || !from_pool)
            && models[i].internal_model is Some && forall|j: int|
            0 <= j < i ==> !((#[trigger] models[j]).name@ == name && (models[j].percentage > 0
                || !from_pool) && models[j].internal_model is Some)) ==> first_serving(
            models,
            name,
            from_pool,
        ) == Some(models[i].internal_model->0@),
        (forall|j: int|
            0 <= j < models.len() ==> !((#[trigger] models[j]).name@ == name && (models[j].percentage
                > 0 || !from_pool) && models[j].internal_model is Some)) ==> first_serving(
            models,
            name,
            from_pool,
        ) is None,
    decreases models.len(),
{
    if models.len() > 0 {
        let rest = models.skip(1);
        law_first_serving(rest, name, from_pool, i - 1);
        assert forall|j: int| 0 <= j < rest.len() implies #[trigger] rest[j] == models[j + 1] by {}
        if 0 < i < models.len() && (forall|j: int|
            0 <= j < i ==> !((#[trigger] models[j]).name@ == name && (models[j].percentage > 0
                || !from_pool) && models[j].internal_model is Some)) {
            assert forall|j: int| 0 <= j < i - 1 implies !((#[trigger] rest[j]).name@ == name && (
            rest[j].percentage > 0 || !from_pool) && rest[j].internal_model is Some) by {
                assert(rest[j] == models[j + 1]);
            }
            assert(rest[i - 1] == models[i]);
        }
    }
}

/// An account is looked at in full: where the credential addresses it, which for the pool every
/// account is and else the one whose token it is, its rules forward the name that is searched for,
/// and a model of its quota answers under its own token, identifier and name.
pub proof fn law_account(router: RouterView, a: Account)
    ensures
        target_after(router, None) == router.target,
        granted_by(router, None) is None,
        (a.quota is None || !(router.from_pool || a.refresh_token@ == router.key || a.access_token@
            == router.key)) ==> target_after(router, Some(a)) == router.target && granted_by(
            router,
            Some(a),
        ) is None,
        (router.from_pool || a.refresh_token@ == router.key || a.access_token@ == router.key) ==> (
        a.quota matches Some(q) ==> {
            let name = forwarded(rules_of(q.model_forwarding_rules@), router.target);
            &&& target_after(router, Some(a)) == name
            &&& granted_by(router, Some(a)) == (match first_serving(
                q.models@,
                name,
                router.from_pool,
            ) {
                Some(model) => Some(
                    GrantView {
                        refresh_token: a.refresh_token@,
                        account_id: Some(a.id@),
                        model,
                        email: a.email@,
                    },
                ),
                None => None,
            })
        }),
{
}

/// Where no account is left, a credential of the backend's is passed on for the model that was
/// asked for, and a key for the pool is refused under the name that was searched for last.
pub proof fn law_conclusion(router: RouterView)
    ensures
        concluded(router) == if router.from_pool {
            RouteView::Refused(
                "无法为您分配可用的账号，所有账号的 ["@ + router.target
                    + "] 额度可能已耗尽或未被授权"@,
            )
        } else {
            RouteView::Granted(
                GrantView {
                    refresh_token: router.key,
                    account_id: None,
                    model: router.model,
                    email: "Direct Access"@,
                },
            )
        },
{
}

/// A search goes on to the first account that may be used: for the pool the first that is active
/// and not disabled, and else the next one; where there is none, it ends. Nothing else changes.
pub proof fn law_next_account(router: RouterView, n: int)
    ensures
        (0 <= n < router.waiting.len() && (!router.from_pool || (router.waiting[n].is_active
            && !router.waiting[n].is_proxy_disabled)) && forall|j: int|
            0 <= j < n ==> router.from_pool && !((#[trigger] router.waiting[j]).is_active
                && !router.waiting[j].is_proxy_disabled)) ==> advanced(router) == (
            RouterView { waiting: router.waiting.skip(n + 1), ..router },
            RouteView::Fetch(router.waiting[n].id@),
        ),
        (forall|j: int|
            0 <= j < router.waiting.len() ==> router.from_pool && !((
            #[trigger] router.waiting[j]).is_active && !router.waiting[j].is_proxy_disabled))
            ==> advanced(router) == (
            RouterView { waiting: Seq::empty(), ..router },
            concluded(router),
        ),
    decreases router.waiting.len(),
{
    if router.waiting.len() > 0 {
        let rest = RouterView { waiting: router.waiting.skip(1), ..router };
        law_next_account(rest, n - 1);
        assert forall|j: int| 0 <= j < rest.waiting.len() implies #[trigger] rest.waiting[j]
            == router.waiting[j + 1] by {}
        if 0 < n < router.waiting.len() {
            assert(router.waiting.skip(1).skip(n) =~= router.waiting.skip(n + 1));
            assert(rest.waiting[n - 1] == router.waiting[n]);
        }
    } else {
        assert(router.waiting =~= Seq::empty());
    }
}

/// An account that was looked up ends the search where it gives something, and else the search
/// goes on with the name that its rules forward to.
pub proof fn law_account_is_taken(router: RouterView, account: Option<Account>)
    ensures
        ({
            let now = RouterView { target: target_after(router, account), ..router };
            answered(router, account) == (match granted_by(router, account) {
                Some(grant) => (now, RouteView::Granted(grant)),
                None => advanced(now),
            })
        }),
{
}

/// The name that is searched for stays the same from account to account, but for those that are
/// looked at and addressed, whose rules forward it.
pub proof fn law_searched(router: RouterView, answers: Seq<Option<Account>>, i: int)
    requires
        0 <= i < router.waiting.len(),
        answers.len() == router.waiting.len(),
    ensures
        ({
            let before = if i == 0 {
                router.target
            } else {
                searched(router, answers, i - 1)
            };
            let usable = !router.from_pool || (router.waiting[i].is_active
                && !router.waiting[i].is_proxy_disabled);
            &&& (usable && (answers[i] matches Some(a) && (router.from_pool || a.refresh_token@
                == router.key || a.access_token@ == router.key) && a.quota is Some)) ==> searched(
                router,
                answers,
                i,
            ) == forwarded(rules_of(answers[i]->0.quota->0.model_forwarding_rules@), before)
            &&& !(usable && (answers[i] matches Some(a) && (router.from_pool || a.refresh_token@
                == router.key || a.access_token@ == router.key) && a.quota is Some)) ==> searched(
                router,
                answers,
                i,
            ) == before
        }),
    decreases i,
{
    if i > 0 {
        let rest = RouterView { waiting: router.waiting.skip(1), ..router };
        let target = if is_considered(router.waiting[0], router.from_pool) {
            target_after(rest, answers[0])
        } else {
            router.target
        };
        let next = RouterView { target, ..rest };
        law_searched(next, answers.skip(1), i - 1);
        assert(next.waiting[i - 1] == router.waiting[i]);
        assert(answers.skip(1)[i - 1] == answers[i]);
        assert(searched(router, answers, i) == searched(next, answers.skip(1), i - 1));
        if i > 1 {
            assert(searched(router, answers, i - 1) == searched(next, answers.skip(1), i - 2));
        } else {
            assert(searched(router, answers, 0) == target);
        }
    }
}

/// The first account answers that may be used, is addressed, and has a model that bears the name
/// searched for, with a name of the backend's and, for the pool, something left of it; in it the
/// first such model does. A request is not refused where there is one.
pub proof fn law_first_account_answers(
    router: RouterView,
    answers: Seq<Option<Account>>,
    i: int,
    a: Account,
    q: Quota,
    m: int,
)
    requires
        answers.len() == router.waiting.len(),
        0 <= i < answers.len(),
        !router.from_pool || (router.waiting[i].is_active && !router.waiting[i].is_proxy_disabled),
        answers[i] == Some(a),
        router.from_pool || a.refresh_token@ == router.key || a.access_token@ == router.key,
        a.quota == Some(q),
        0 <= m < q.models@.len(),
        q.models@[m].name@ == searched(router, answers, i),
        q.models@[m].percentage > 0 || !router.from_pool,
        q.models@[m].internal_model is Some,
        forall|k: int|
            0 <= k < m ==> !((#[trigger] q.models@[k]).name@ == searched(router, answers, i) && (
            q.models@[k].percentage > 0 || !router.from_pool) && q.models@[k].internal_model is Some),
        forall|j: int, k: int|
            #![trigger answers[j]->0.quota->0.models@[k]]
            0 <= j < i && (!router.from_pool || (router.waiting[j].is_active
                && !router.waiting[j].is_proxy_disabled)) && (answers[j] matches Some(b) && (
            router.from_pool || b.refresh_token@ == router.key || b.access_token@ == router.key)
                && (b.quota matches Some(p) && 0 <= k < p.models@.len())) ==> !(
            answers[j]->0.quota->0.models@[k].name@ == searched(router, answers, j) && (
            answers[j]->0.quota->0.models@[k].percentage > 0 || !router.from_pool)
                && answers[j]->0.quota->0.models@[k].internal_model is Some),
    ensures
        outcome(router, answers) == RouteView::Granted(
            GrantView {
                refresh_token: a.refresh_token@,
                account_id: Some(a.id@),
                model: q.models@[m].internal_model->0@,
                email: a.email@,
            },
        ),
    decreases i,
{
    let rest = RouterView { waiting: router.waiting.skip(1), ..router };
    let considered = is_considered(router.waiting[0], router.from_pool);
    let target = if considered {
        target_after(rest, answers[0])
    } else {
        router.target
    };
    let next = RouterView { target, ..rest };
    assert(searched(router, answers, 0) == target);
    if i == 0 {
        law_first_serving(q.models@, target, router.from_pool, m);
    } else {
        if considered && answers[0] is Some && answers[0]->0.quota is Some && is_addressed(
            rest,
            answers[0]->0,
        ) {
            let p = answers[0]->0.quota->0;
            assert forall|k: int| 0 <= k < p.models@.len() implies !((
            #[trigger] p.models@[k]).name@ == target && (p.models@[k].percentage > 0
                || !router.from_pool) && p.models@[k].internal_model is Some) by {
                assert(answers[0]->0.quota->0.models@[k] == p.models@[k]);
            }
            law_first_serving(p.models@, target, router.from_pool, 0);
        }
        let later = answers.skip(1);
        assert forall|j: int| 0 <= j < later.len() implies #[trigger] later[j] == answers[j + 1]
            && next.waiting[j] == router.waiting[j + 1] && searched(next, later, j) == searched(
            router,
            answers,
            j + 1,
        ) by {}
        assert(later[i - 1] == answers[i]);
        assert forall|j: int, k: int|
            #![trigger later[j]->0.quota->0.models@[k]]
            0 <= j < i - 1 && (!next.from_pool || (next.waiting[j].is_active
                && !next.waiting[j].is_proxy_disabled)) && (later[j] matches Some(b) && (
            next.from_pool || b.refresh_token@ == next.key || b.access_token@ == next.key) && (
            b.quota matches Some(p) && 0 <= k < p.models@.len())) implies !(
        later[j]->0.quota->0.models@[k].name@ == searched(next, later, j) && (
        later[j]->0.quota->0.models@[k].percentage > 0 || !next.from_pool)
            && later[j]->0.quota->0.models@[k].internal_model is Some) by {
            assert(later[j] == answers[j + 1]);
            assert(answers[j + 1]->0.quota->0.models@[k] == later[j]->0.quota->0.models@[k]);
        }
        law_first_account_answers(next, later, i - 1, a, q, m);
    }
}

/// Where no account that may be used and is addressed has such a model, a request for the pool is
/// refused under the name that was searched for last, and any other credential is passed on.
pub proof fn law_nothing_answers(router: RouterView, answers: Seq<Option<Account>>)
    requires
        answers.len() == router.waiting.len(),
        forall|j: int, k: int|
            #![trigger answers[j]->0.quota->0.models@[k]]
            0 <= j < answers.len() && (!router.from_pool || (router.waiting[j].is_active
                && !router.waiting[j].is_proxy_disabled)) && (answers[j] matches Some(b) && (
            router.from_pool || b.refresh_token@ == router.key || b.access_token@ == router.key)
                && (b.quota matches Some(p) && 0 <= k < p.models@.len())) ==> !(
            answers[j]->0.quota->0.models@[k].name@ == searched(router, answers, j) && (
            answers[j]->0.quota->0.models@[k].percentage > 0 || !router.from_pool)
                && answers[j]->0.quota->0.models@[k].internal_model is Some),
    ensures
        outcome(router, answers) == concluded(
            RouterView {
                target: if answers.len() == 0 {
                    router.target
                } else {
                    searched(router, answers, answers.len() - 1)
                },
                waiting: Seq::empty(),
                ..router
            },
        ),
    decreases router.waiting.len(),
{
    if router.waiting.len() == 0 {
        assert(router.waiting =~= Seq::empty());
    } else {
        let rest = RouterView { waiting: router.waiting.skip(1), ..router };
        let considered = is_considered(router.waiting[0], router.from_pool);
        let target = if considered {
            target_after(rest, answers[0])
        } else {
            router.target
        };
        let next = RouterView { target, ..rest };
        assert(searched(router, answers, 0) == target);
        if considered && answers[0] is Some && answers[0]->0.quota is Some && is_addressed(
            rest,
            answers[0]->0,
        ) {
            let p = answers[0]->0.quota->0;
            assert forall|k: int| 0 <= k < p.models@.len() implies !((
            #[trigger] p.models@[k]).name@ == target && (p.models@[k].percentage > 0
                || !router.from_pool) && p.models@[k].internal_model is Some) by {
                assert(answers[0]->0.quota->0.models@[k] == p.models@[k]);
            }
            law_first_serving(p.models@, target, router.from_pool, 0);
        }
        let later = answers.skip(1);
        assert forall|j: int| 0 <= j < later.len() implies #[trigger] later[j] == answers[j + 1]
            && next.waiting[j] == router.waiting[j + 1] && searched(next, later, j) == searched(
            router,
            answers,
            j + 1,
        ) by {}
        assert forall|j: int, k: int|
            #![trigger later[j]->0.quota->0.models@[k]]
            0 <= j < later.len() && (!next.from_pool || (next.waiting[j].is_active
                && !next.waiting[j].is_proxy_disabled)) && (later[j] matches Some(b) && (
            next.from_pool || b.refresh_token@ == next.key || b.access_token@ == next.key) && (
            b.quota matches Some(p) && 0 <= k < p.models@.len())) implies !(
        later[j]->0.quota->0.models@[k].name@ == searched(next, later, j) && (
        later[j]->0.quota->0.models@[k].percentage > 0 || !next.from_pool)
            && later[j]->0.quota->0.models@[k].internal_model is Some) by {
            assert(later[j] == answers[j + 1]);
            assert(answers[j + 1]->0.quota->0.models@[k] == later[j]->0.quota->0.models@[k]);
        }
        law_nothing_answers(next, later);
        if later.len() > 0 {
            assert(later[later.len() - 1] == answers[answers.len() - 1]);
        }
    }
}

/// Nothing of a grant or an action is lost in what it says.
pub proof fn law_grant_views(grant: Grant, id: String, reason: String)
    ensures
        grant@.refresh_token == grant.refresh_token@,
        grant.account_id is None <==> grant@.account_id is None,
        grant.account_id matches Some(a) ==> grant@.account_id == Some(a@),
        grant@.model == grant.model@,
        grant@.email == grant.email@,
        RouteAction::Fetch(id)@ == RouteView::Fetch(id@),
        RouteAction::Granted(grant)@ == RouteView::Granted(grant@),
        RouteAction::Refused(reason)@ == RouteView::Refused(reason@),
{
}

} // verus!
