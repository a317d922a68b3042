//! Alerts: blockquotes whose first line is a marker such as `[!NOTE]`, drawn
//! with an accent colour, an icon and a title.

use vstd::prelude::*;

verus! {

/// An alert kind.
#[derive(PartialEq, Eq, Debug)]
pub struct Alert {
    /// The colour that will be used to put emphasis to the alert, as red,
    /// green and blue.
    pub accent_color: (u8, u8, u8),
    /// The icon that will be displayed
    pub icon: char,
    /// The identifier that will be used to look for the blockquote such as NOTE and TIP
    pub identifier: String,
    /// The identifier that will be shown when rendering. E.g: Note and Tip
    pub identifier_rendered: String,
}

impl Alert {
    /// A copy of the alert.
    pub fn duplicate(&self) -> (res: Alert)
        ensures
            res == *self,
    {
        Alert {
            accent_color: self.accent_color,
            icon: self.icon,
            identifier: self.identifier.clone(),
            identifier_rendered: self.identifier_rendered.clone(),
        }
    }
}

/// The marker text that announces an alert: `[!` + identifier + `]`.
pub open spec fn alert_key(identifier: Seq<char>) -> Seq<char> {
    seq!['[', '!'] + identifier + seq![']']
}

/// The first alert whose marker text is `key`.
pub open spec fn lookup(alerts: Seq<Alert>, key: Seq<char>) -> Option<Alert>
    decreases alerts.len(),
{
    if alerts.len() == 0 {
        None
    } else if alert_key(alerts[0].identifier@) == key {
        Some(alerts[0])
    } else {
        lookup(alerts.drop_first(), key)
    }
}

/// `alerts` with `alert` added: it replaces the alert with the same
/// identifier, or goes last if there is none.
pub open spec fn store(alerts: Seq<Alert>, alert: Alert) -> Seq<Alert> {
    if exists|i: int| 0 <= i < alerts.len() && alerts[i].identifier@ == alert.identifier@ {
        let i = choose|i: int| 0 <= i < alerts.len() && alerts[i].identifier@ == alert.identifier@;
        alerts.update(i, alert)
    } else {
        alerts.push(alert)
    }
}

/// `alerts` with each of `more` added in turn.
pub open spec fn store_all(alerts: Seq<Alert>, more: Seq<Alert>) -> Seq<Alert>
    decreases more.len(),
{
    if more.len() == 0 {
        alerts
    } else {
        store(store_all(alerts, more.drop_last()), more.last())
    }
}

/// No two alerts share an identifier.
pub open spec fn identifiers_distinct(alerts: Seq<Alert>) -> bool {
    forall|i: int, j: int|
        0 <= i < alerts.len() && 0 <= j < alerts.len() && i != j ==> alerts[i].identifier@
            != alerts[j].identifier@
}

/// The alerts that a viewer recognises, each under its marker text.
#[derive(PartialEq, Eq, Debug)]
pub struct AlertBundle {
    /// The marker text of each alert: `[!identifier]`.
    keys: Vec<String>,
    alerts: Vec<Alert>,
}

impl AlertBundle {
    /// The alerts of the bundle.
    pub closed spec fn alerts(&self) -> Seq<Alert> {
        self.alerts@
    }

    /// The alert whose marker text is `key`.
    pub open spec fn get(&self, key: Seq<char>) -> Option<Alert> {
        lookup(self.alerts(), key)
    }

    /// No identifier twice, and each stored marker is the marker of its
    /// alert.
    #[verifier::type_invariant]
    closed spec fn wf(&self) -> bool {
        &&& identifiers_distinct(self.alerts@)
        &&& self.keys@.len() == self.alerts@.len()
        &&& forall|i: int|
            0 <= i < self.keys@.len() ==> #[trigger] self.keys@[i]@ == alert_key(
                self.alerts@[i].identifier@,
            )
    }

    /// Builds a bundle from a list of alerts. An alert whose identifier was
    /// already seen replaces the earlier one.
    pub fn from_alerts(alerts: Vec<Alert>) -> (res: Self)
        ensures
            res.alerts() == store_all(Seq::empty(), alerts@),
    {
        let mut keys: Vec<String> = Vec::new();
        let mut stored: Vec<Alert> = Vec::new();
        let mut rest = alerts;
        let ghost all = rest@;
        let mut i: usize = 0;
        assert(all.len() == rest.len());
        assert(rest@ =~= all.skip(0));
        while rest.len() > 0
            invariant
                i + rest@.len() == all.len(),
                all.len() <= usize::MAX,
                rest@ =~= all.skip(i as int),
                stored@ == store_all(Seq::empty(), all.take(i as int)),
                identifiers_distinct(stored@),
                keys@.len() == stored@.len(),
                forall|k: int|
                    0 <= k < keys@.len() ==> #[trigger] keys@[k]@ == alert_key(
                        stored@[k].identifier@,
                    ),
            decreases rest@.len(),
        {
            assert(i < all.len());
            let alert = rest.remove(0);
            proof {
                assert(all.skip(i as int)[0] == all[i as int]);
                assert(all.skip(i as int).drop_first() =~= all.skip(i + 1));
            }
            let j = find_identifier(&stored, &alert.identifier);
            let ghost before = stored@;
            if j < stored.len() {
                assert(stored@[j as int].identifier@ == alert.identifier@);
                proof {
                    let c = choose|c: int|
                        0 <= c < before.len() && before[c].identifier@ == alert.identifier@;
                    assert(c == j);
                }
                stored.set(j, alert);
            } else {
                let key = marker_of(&alert.identifier);
                keys.push(key);
                stored.push(alert);
            }
            proof {
                assert(all.take(i + 1).drop_last() =~= all.take(i as int));
                assert(all.take(i + 1).last() == all[i as int]);
            }
            i = i + 1;
        }
        assert(all.take(i as int) =~= all);
        AlertBundle { keys, alerts: stored }
    }

    /// The alerts of the bundle.
    pub fn into_alerts(self) -> (res: Vec<Alert>)
        ensures
            res@ == self.alerts(),
    {
        self.alerts
    }

    /// A bundle without alerts.
    pub fn empty() -> (res: Self)
        ensures
            res.alerts().len() == 0,
    {
        AlertBundle { keys: Vec::new(), alerts: Vec::new() }
    }

    /// See if the bundle contains no alerts
    pub fn is_empty(&self) -> (res: bool)
        ensures
            res == (self.alerts().len() == 0),
    {
        self.alerts.len() == 0
    }

    /// github flavoured markdown alerts
    /// `[!NOTE]`, `[!TIP]`, `[!IMPORTANT]`, `[!WARNING]` and `[!CAUTION]`.
    ///
    /// This is used by default
    pub fn gfm() -> (res: Self)
        ensures
            is_gfm(&res),
    {
        let alerts = vec![
            Alert {
                accent_color: (10, 80, 210),
                icon: '❕',
                identifier: "NOTE".to_owned(),
                identifier_rendered: "Note".to_owned(),
            },
            Alert {
                accent_color: (0, 130, 20),
                icon: '💡',
                identifier: "TIP".to_owned(),
                identifier_rendered: "Tip".to_owned(),
            },
            Alert {
                accent_color: (150, 30, 140),
                icon: '💬',
                identifier: "IMPORTANT".to_owned(),
                identifier_rendered: "Important".to_owned(),
            },
            Alert {
                accent_color: (200, 120, 0),
                icon: '⚠',
                identifier: "WARNING".to_owned(),
                identifier_rendered: "Warning".to_owned(),
            },
            Alert {
                accent_color: (220, 0, 0),
                icon: '🔴',
                identifier: "CAUTION".to_owned(),
                identifier_rendered: "Caution".to_owned(),
            },
        ];
        proof {
            reveal_strlit("NOTE");
            reveal_strlit("Note");
            reveal_strlit("TIP");
            reveal_strlit("Tip");
            reveal_strlit("IMPORTANT");
            reveal_strlit("Important");
            reveal_strlit("WARNING");
            reveal_strlit("Warning");
            reveal_strlit("CAUTION");
            reveal_strlit("Caution");
            assert(alerts@[0].identifier@ =~= seq!['N', 'O', 'T', 'E']);
            assert(alerts@[1].identifier@ =~= seq!['T', 'I', 'P']);
            assert(alerts@[2].identifier@ =~= seq!['I', 'M', 'P', 'O', 'R', 'T', 'A', 'N', 'T']);
            assert(alerts@[3].identifier@ =~= seq!['W', 'A', 'R', 'N', 'I', 'N', 'G']);
            assert(alerts@[4].identifier@ =~= seq!['C', 'A', 'U', 'T', 'I', 'O', 'N']);
            assert(alerts@[3].identifier@[0] != alerts@[4].identifier@[0]);
            assert(alerts@[1].identifier@[0] != alerts@[0].identifier@[0]);
            lemma_store_all_distinct(alerts@);
        }
        let ghost all = alerts@;
        let res = AlertBundle::from_alerts(alerts);
        assert(res.alerts() == all);
        assert(all[0].identifier_rendered@ =~= seq!['N', 'o', 't', 'e']);
        assert(all[1].identifier_rendered@ =~= seq!['T', 'i', 'p']);
        assert(all[2].identifier_rendered@ =~= seq!['I', 'm', 'p', 'o', 'r', 't', 'a', 'n', 't']);
        assert(all[3].identifier_rendered@ =~= seq!['W', 'a', 'r', 'n', 'i', 'n', 'g']);
        assert(all[4].identifier_rendered@ =~= seq!['C', 'a', 'u', 't', 'i', 'o', 'n']);
        res
    }
}

/// The text of `s` in upper case, as `str::to_uppercase` computes it.
pub uninterp spec fn spec_to_uppercase(s: Seq<char>) -> Seq<char>;

/// Calls `str::to_uppercase`. Trusted: the result is the uppercase form
/// that the standard library computes, named [`spec_to_uppercase`].
#[verifier::external_body]
fn to_uppercase(s: &str) -> (res: String)
    ensures
        res@ == spec_to_uppercase(s@),
{
    s.to_uppercase()
}

/// The alert of `bundle` whose marker text is `text` in upper case.
pub fn try_get_alert<'a>(bundle: &'a AlertBundle, text: &str) -> (res: Option<&'a Alert>)
    ensures
        match res {
            Some(a) => bundle.get(spec_to_uppercase(text@)) == Some(*a),
            None => bundle.get(spec_to_uppercase(text@)) is None,
        },
{
    proof {
        use_type_invariant(bundle);
    }
    let key = to_uppercase(text);
    let mut i: usize = 0;
    assert(bundle.alerts@.skip(0) =~= bundle.alerts@);
    while i < bundle.alerts.len()
        invariant
            i <= bundle.alerts@.len(),
            bundle.keys@.len() == bundle.alerts@.len(),
            forall|k: int|
                0 <= k < bundle.keys@.len() ==> #[trigger] bundle.keys@[k]@ == alert_key(
                    bundle.alerts@[k].identifier@,
                ),
            lookup(bundle.alerts@, key@) == lookup(bundle.alerts@.skip(i as int), key@),
            key@ == spec_to_uppercase(text@),
        decreases bundle.alerts@.len() - i,
    {
        assert(bundle.alerts@.skip(i as int)[0] == bundle.alerts@[i as int]);
        assert(bundle.keys@[i as int]@ == alert_key(bundle.alerts@[i as int].identifier@));
        if bundle.keys[i] == key {
            assert(alert_key(bundle.alerts@[i as int].identifier@) == key@);
            assert(lookup(bundle.alerts@.skip(i as int), key@) == Some(bundle.alerts@[i as int]));
            return Some(&bundle.alerts[i]);
        }
        assert(bundle.alerts@.skip(i as int).drop_first() =~= bundle.alerts@.skip(i + 1));
        i = i + 1;
    }
    None
}

/// The five alerts of GitHub-flavoured markdown, in order, with their
/// colours, icons and titles.
pub open spec fn is_gfm(b: &AlertBundle) -> bool {
    &&& b.alerts().len() == 5
    &&& b.alerts()[0].identifier@ == seq!['N', 'O', 'T', 'E']
    &&& b.alerts()[0].identifier_rendered@ == seq!['N', 'o', 't', 'e']
    &&& b.alerts()[0].accent_color == (10u8, 80u8, 210u8)
    &&& b.alerts()[0].icon == '❕'
    &&& b.alerts()[1].identifier@ == seq!['T', 'I', 'P']
    &&& b.alerts()[1].identifier_rendered@ == seq!['T', 'i', 'p']
    &&& b.alerts()[1].accent_color == (0u8, 130u8, 20u8)
    &&& b.alerts()[1].icon == '💡'
    &&& b.alerts()[2].identifier@ == seq!['I', 'M', 'P', 'O', 'R', 'T', 'A', 'N', 'T']
    &&& b.alerts()[2].identifier_rendered@ == seq!['I', 'm', 'p', 'o', 'r', 't', 'a', 'n', 't']
    &&& b.alerts()[2].accent_color == (150u8, 30u8, 140u8)
    &&& b.alerts()[2].icon == '💬'
    &&& b.alerts()[3].identifier@ == seq!['W', 'A', 'R', 'N', 'I', 'N', 'G']
    &&& b.alerts()[3].identifier_rendered@ == seq!['W', 'a', 'r', 'n', 'i', 'n', 'g']
    &&& b.alerts()[3].accent_color == (200u8, 120u8, 0u8)
    &&& b.alerts()[3].icon == '⚠'
    &&& b.alerts()[4].identifier@ == seq!['C', 'A', 'U', 'T', 'I', 'O', 'N']
    &&& b.alerts()[4].identifier_rendered@ == seq!['C', 'a', 'u', 't', 'i', 'o', 'n']
    &&& b.alerts()[4].accent_color == (220u8, 0u8, 0u8)
    &&& b.alerts()[4].icon == '🔴'
}

/// Storing alerts whose identifiers are all different keeps them all, in
/// order.
proof fn lemma_store_all_distinct(alerts: Seq<Alert>)
    requires
        identifiers_distinct(alerts),
    ensures
        store_all(Seq::empty(), alerts) == alerts,
    decreases alerts.len(),
{
    if alerts.len() > 0 {
        let p = alerts.drop_last();
        assert(identifiers_distinct(p));
        lemma_store_all_distinct(p);
        assert(!exists|i: int| 0 <= i < p.len() && p[i].identifier@ == alerts.last().identifier@) by {
            assert forall|i: int| 0 <= i < p.len() implies p[i].identifier@
                != alerts.last().identifier@ by {
                assert(p[i] == alerts[i]);
            }
        }
        assert(p.push(alerts.last()) =~= alerts);
    }
}

/// The index of the first alert with identifier `id`; the length of
/// `alerts` if there is none.
fn find_identifier(alerts: &Vec<Alert>, id: &String) -> (res: usize)
    ensures
        res <= alerts@.len(),
        forall|k: int| 0 <= k < res ==> alerts@[k].identifier@ != id@,
        res < alerts@.len() ==> alerts@[res as int].identifier@ == id@,
{
    let mut j: usize = 0;
    while j < alerts.len()
        invariant
            j <= alerts@.len(),
            forall|k: int| 0 <= k < j ==> alerts@[k].identifier@ != id@,
        decreases alerts@.len() - j,
    {
        if alerts[j].identifier == *id {
            return j;
        }
        j = j + 1;
    }
    j
}

/// The marker text of an alert identifier: `[!` + identifier + `]`.
fn marker_of(identifier: &String) -> (res: String)
    ensures
        res@ == alert_key(identifier@),
{
    let mut key = "[!".to_owned();
    key.append(identifier.as_str());
    key.append("]");
    proof {
        reveal_strlit("[!");
        reveal_strlit("]");
    }
    assert(key@ =~= alert_key(identifier@));
    key
}

} // verus!
