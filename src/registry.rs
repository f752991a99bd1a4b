use vstd::prelude::*;

use crate::domain::{CommandDefinition, CommandMutation, CommandView};
use crate::error::CenterError;
use crate::text::{
    clean_list, clean_opt, cleaned, cleaned_opt, copy_text, is_blank, lowercase_text, lower_of,
    opt_text, texts, trim_of,
};

verus! {

/// The contents of a sequence of command definitions.
pub open spec fn command_views(s: Seq<CommandDefinition>) -> Seq<CommandView> {
    s.map_values(|c: CommandDefinition| c@)
}

/// No two commands share an id.
pub open spec fn ids_unique(s: Seq<CommandView>) -> bool {
    forall|i: int, j: int|
        0 <= i < s.len() && 0 <= j < s.len() && i != j ==> s[i].id != s[j].id
}

/// Some command has the id.
pub open spec fn holds_id(s: Seq<CommandView>, id: Seq<char>) -> bool {
    exists|i: int| 0 <= i < s.len() && s[i].id == id
}

/// Where the command with the id stands; meaningful where one does.
pub open spec fn index_of(s: Seq<CommandView>, id: Seq<char>) -> int {
    choose|i: int| 0 <= i < s.len() && s[i].id == id
}

/// The id that an upsert works on: the mutation's own where a command has
/// it, else the fresh one.
pub open spec fn target_id(s: Seq<CommandView>, m: CommandMutation, fresh: Seq<char>) -> Seq<char> {
    match m.id {
        Some(id) => if holds_id(s, id@) {
            id@
        } else {
            fresh
        },
        None => fresh,
    }
}

/// The command that a mutation saves under `id`.
pub open spec fn saved_command(m: CommandMutation, id: Seq<char>, created_at: i64, now: i64) -> CommandView {
    CommandView {
        id,
        name: m.name@,
        executable: m.executable@,
        args: cleaned(texts(m.args@)),
        description: cleaned_opt(opt_text(m.description)),
        tags: cleaned(texts(m.tags@)),
        allow_arguments: m.allow_arguments,
        created_at,
        updated_at: now,
    }
}

/// Why a mutation is refused, if it is.
pub open spec fn mutation_refusal(m: CommandMutation) -> Option<CenterError> {
    if trim_of(m.name@).len() == 0 {
        Some(CenterError::NameRequired)
    } else if trim_of(m.executable@).len() == 0 {
        Some(CenterError::ExecutableRequired)
    } else {
        None
    }
}

/// `a` comes no later than `b`, character by character.
pub open spec fn text_le(a: Seq<char>, b: Seq<char>) -> bool
    decreases a.len(),
{
    if a.len() == 0 {
        true
    } else if b.len() == 0 {
        false
    } else if (a[0] as u32) != (b[0] as u32) {
        (a[0] as u32) < (b[0] as u32)
    } else {
        text_le(a.drop_first(), b.drop_first())
    }
}

/// Of two texts, one comes no later than the other.
pub proof fn lemma_text_le_total(a: Seq<char>, b: Seq<char>)
    ensures
        text_le(a, b) || text_le(b, a),
    decreases a.len(),
{
    if a.len() > 0 && b.len() > 0 && (a[0] as u32) == (b[0] as u32) {
        lemma_text_le_total(a.drop_first(), b.drop_first());
    }
}

/// The commands are in order of their lowercase names.
pub open spec fn sorted_by_name(s: Seq<CommandView>) -> bool {
    forall|i: int| 0 <= i < s.len() - 1 ==> text_le(lower_of(#[trigger] s[i].name), lower_of(s[i + 1].name))
}

/// Whether `a` comes no later than `b`, character by character.
pub fn text_precedes(a: &str, b: &str) -> (r: bool)
    ensures
        r == text_le(a@, b@),
{
    let la = a.unicode_len();
    let lb = b.unicode_len();
    let mut i: usize = 0;
    proof {
        assert(a@.subrange(0, la as int) =~= a@);
        assert(b@.subrange(0, lb as int) =~= b@);
    }
    while i < la && i < lb
        invariant
            la == a@.len(),
            lb == b@.len(),
            i <= la,
            i <= lb,
            text_le(a@, b@) == text_le(a@.subrange(i as int, la as int), b@.subrange(i as int, lb as int)),
        decreases la - i,
    {
        let ca = a.get_char(i);
        let cb = b.get_char(i);
        proof {
            let sa = a@.subrange(i as int, la as int);
            let sb = b@.subrange(i as int, lb as int);
            assert(sa[0] == ca);
            assert(sb[0] == cb);
            assert(sa.drop_first() =~= a@.subrange(i as int + 1, la as int));
            assert(sb.drop_first() =~= b@.subrange(i as int + 1, lb as int));
        }
        if (ca as u32) != (cb as u32) {
            return (ca as u32) < (cb as u32);
        }
        i = i + 1;
    }
    i == la
}

/// The command definitions, each with its own id.
pub struct Registry {
    commands: Vec<CommandDefinition>,
}

impl Registry {
    /// The commands held, in the order they were added.
    pub closed spec fn entries(&self) -> Seq<CommandView> {
        command_views(self.commands@)
    }

    pub open spec fn wf(&self) -> bool {
        ids_unique(self.entries())
    }

    /// A registry with no commands.
    pub fn new() -> (r: Registry)
        ensures
            r.wf(),
            r.entries().len() == 0,
    {
        Registry { commands: Vec::new() }
    }

    /// Whether no command is held.
    pub fn is_empty(&self) -> (r: bool)
        ensures
            r == (self.entries().len() == 0),
    {
        self.commands.len() == 0
    }

    /// Where the command with the id stands, if one does.
    pub fn position(&self, id: &str) -> (r: Option<usize>)
        requires
            self.wf(),
        ensures
            r is None ==> !holds_id(self.entries(), id@),
            r matches Some(i) ==> i < self.entries().len() && self.entries()[i as int].id == id@,
    {
        let key = String::from_str(id);
        let mut i: usize = 0;
        while i < self.commands.len()
            invariant
                i <= self.commands@.len(),
                key@ == id@,
                forall|j: int| 0 <= j < i ==> self.entries()[j].id != id@,
            decreases self.commands@.len() - i,
        {
            if self.commands[i].id == key {
                return Some(i);
            }
            i = i + 1;
        }
        None
    }

    /// `candidate` where no command has it, else `candidate` with dashes
    /// added until it is longer than every id held.
    pub fn unused_id(&self, candidate: String) -> (r: String)
        requires
            self.wf(),
        ensures
            !holds_id(self.entries(), r@),
            !holds_id(self.entries(), candidate@) ==> r@ == candidate@,
    {
        if self.position(candidate.as_str()).is_none() {
            return candidate;
        }
        let mut longest: usize = 0;
        let mut i: usize = 0;
        while i < self.commands.len()
            invariant
                i <= self.commands@.len(),
                forall|j: int| 0 <= j < i ==> self.entries()[j].id.len() <= longest,
            decreases self.commands@.len() - i,
        {
            let n = self.commands[i].id.as_str().unicode_len();
            if n > longest {
                longest = n;
            }
            i = i + 1;
        }
        let mut id = candidate;
        proof {
            reveal_strlit("-");
        }
        while id.as_str().unicode_len() <= longest
            invariant
                "-"@.len() == 1,
                forall|j: int| 0 <= j < self.entries().len() ==> self.entries()[j].id.len() <= longest,
            decreases longest + 1 - id@.len(),
        {
            id.append("-");
        }
        proof {
            assert forall|j: int| 0 <= j < self.entries().len() implies self.entries()[j].id != id@ by {
                assert(self.entries()[j].id.len() < id@.len());
            }
        }
        id
    }

    /// A copy of the command with the id, if one is held.
    pub fn get(&self, id: &str) -> (r: Option<CommandDefinition>)
        requires
            self.wf(),
        ensures
            r is None ==> !holds_id(self.entries(), id@),
            r matches Some(c) ==> holds_id(self.entries(), id@) && forall|i: int|
                0 <= i < self.entries().len() && self.entries()[i].id == id@ ==> c@ == self.entries()[i],
    {
        match self.position(id) {
            Some(i) => Some(self.commands[i].copy()),
            None => None,
        }
    }

    /// Adds `c` after the others; its id must be new.
    pub fn add(&mut self, c: CommandDefinition)
        requires
            old(self).wf(),
            !holds_id(old(self).entries(), c.id@),
        ensures
            final(self).wf(),
            final(self).entries() == old(self).entries().push(c@),
    {
        self.commands.push(c);
        proof {
            assert(self.entries() =~= old(self).entries().push(c@));
        }
    }

    /// Saves the mutation under its own id where a command has it, else under
    /// `fresh`: a new command where no command has that id, else the command
    /// with that id, replaced, with its creation time kept. Hands back the
    /// saved command and whether it is new.
    pub fn upsert(&mut self, m: CommandMutation, fresh: String, now: i64) -> (r: Result<(CommandDefinition, bool), CenterError>)
        requires
            old(self).wf(),
        ensures
            final(self).wf(),
            mutation_refusal(m) matches Some(e) ==> r == Err::<(CommandDefinition, bool), CenterError>(e) && final(self).entries() == old(self).entries(),
            mutation_refusal(m) is None ==> r is Ok,
            r matches Ok((c, created)) ==> {
                let id = target_id(old(self).entries(), m, fresh@);
                &&& created == !holds_id(old(self).entries(), id)
                &&& created ==> c@ == saved_command(m, id, now, now)
                    && final(self).entries() == old(self).entries().push(c@)
                &&& !created ==> {
                    let i = index_of(old(self).entries(), id);
                    &&& 0 <= i < old(self).entries().len()
                    &&& old(self).entries()[i].id == id
                    &&& c@ == saved_command(m, id, old(self).entries()[i].created_at, now)
                    &&& final(self).entries() == old(self).entries().update(i, c@)
                }
            },
    {
        if is_blank(m.name.as_str()) {
            return Err(CenterError::NameRequired);
        }
        if is_blank(m.executable.as_str()) {
            return Err(CenterError::ExecutableRequired);
        }
        let id = match &m.id {
            Some(id) => if self.position(id.as_str()).is_some() {
                copy_text(id)
            } else {
                fresh
            },
            None => fresh,
        };
        let args = clean_list(&m.args);
        let tags = clean_list(&m.tags);
        let description = clean_opt(&m.description);
        match self.position(id.as_str()) {
            Some(i) => {
                let c = CommandDefinition {
                    id,
                    name: m.name,
                    executable: m.executable,
                    args,
                    description,
                    tags,
                    allow_arguments: m.allow_arguments,
                    created_at: self.commands[i].created_at,
                    updated_at: now,
                };
                let saved = c.copy();
                self.commands.set(i, c);
                proof {
                    assert(self.entries() =~= old(self).entries().update(i as int, saved@));
                    let k = index_of(old(self).entries(), saved.id@);
                    assert(old(self).entries()[i as int].id == saved.id@);
                    assert(k == i);
                }
                Ok((saved, false))
            },
            None => {
                let c = CommandDefinition {
                    id,
                    name: m.name,
                    executable: m.executable,
                    args,
                    description,
                    tags,
                    allow_arguments: m.allow_arguments,
                    created_at: now,
                    updated_at: now,
                };
                let saved = c.copy();
                self.add(c);
                Ok((saved, true))
            },
        }
    }

    /// Removes the command with the id; whether one was held.
    pub fn remove(&mut self, id: &str) -> (r: bool)
        requires
            old(self).wf(),
        ensures
            final(self).wf(),
            r == holds_id(old(self).entries(), id@),
            !r ==> final(self).entries() == old(self).entries(),
            r ==> forall|i: int|
                0 <= i < old(self).entries().len() && old(self).entries()[i].id == id@
                    ==> final(self).entries() == old(self).entries().remove(i),
            !holds_id(final(self).entries(), id@),
    {
        match self.position(id) {
            Some(i) => {
                self.commands.remove(i);
                proof {
                    assert(self.entries() =~= old(self).entries().remove(i as int));
                    assert forall|j: int|
                        0 <= j < old(self).entries().len() && old(self).entries()[j].id == id@ implies j == i by {}
                    assert forall|j: int| 0 <= j < self.entries().len() implies self.entries()[j].id != id@ by {
                        if j < i {
                        } else {
                            assert(self.entries()[j] == old(self).entries()[j + 1]);
                        }
                    }
                }
                true
            },
            None => false,
        }
    }

    /// Copies of all commands, in order of their lowercase names.
    pub fn sorted(&self) -> (r: Vec<CommandDefinition>)
        ensures
            command_views(r@).to_multiset() == self.entries().to_multiset(),
            sorted_by_name(command_views(r@)),
    {
        let mut out: Vec<CommandDefinition> = Vec::new();
        let mut keys: Vec<String> = Vec::new();
        let mut i: usize = 0;
        proof {
            assert(command_views(out@) =~= command_views(self.commands@.take(0)));
        }
        while i < self.commands.len()
            invariant
                i <= self.commands@.len(),
                keys@.len() == out@.len(),
                forall|k: int| 0 <= k < out@.len() ==> #[trigger] keys@[k]@ == lower_of(out@[k].name@),
                command_views(out@).to_multiset() == command_views(self.commands@.take(i as int)).to_multiset(),
                sorted_by_name(command_views(out@)),
            decreases self.commands@.len() - i,
        {
            let c = self.commands[i].copy();
            let key = lowercase_text(c.name.as_str());
            let mut p: usize = 0;
            while p < out.len()
                invariant
                    p <= out@.len(),
                    keys@.len() == out@.len(),
                    forall|k: int| 0 <= k < p ==> text_le(#[trigger] keys@[k]@, key@),
                ensures
                    p <= out@.len(),
                    forall|k: int| 0 <= k < p ==> text_le(#[trigger] keys@[k]@, key@),
                    p < out@.len() ==> text_le(key@, keys@[p as int]@),
                decreases out@.len() - p,
            {
                if !text_precedes(keys[p].as_str(), key.as_str()) {
                    proof {
                        lemma_text_le_total(key@, keys@[p as int]@);
                    }
                    break;
                }
                p = p + 1;
            }
            assert(p < out@.len() ==> text_le(key@, keys@[p as int]@));
            let ghost before = command_views(out@);
            let ghost old_keys = keys@;
            out.insert(p, c);
            keys.insert(p, key);
            proof {
                let now_views = command_views(out@);
                assert(now_views =~= before.insert(p as int, self.commands@[i as int]@));
                assert(self.commands@.take(i as int + 1) =~= self.commands@.take(i as int).push(self.commands@[i as int]));
                assert(command_views(self.commands@.take(i as int + 1)) =~= command_views(self.commands@.take(i as int)).push(self.commands@[i as int]@));
                vstd::seq_lib::to_multiset_insert(before, p as int, self.commands@[i as int]@);
                vstd::seq_lib::to_multiset_build(command_views(self.commands@.take(i as int)), self.commands@[i as int]@);
                assert forall|k: int| 0 <= k < out@.len() implies #[trigger] keys@[k]@ == lower_of(out@[k].name@) by {
                    if k < p {
                    } else if k > p {
                        assert(keys@[k] == old_keys[k - 1]);
                    }
                }
                assert forall|k: int| 0 <= k < now_views.len() - 1 implies text_le(lower_of(#[trigger] now_views[k].name), lower_of(now_views[k + 1].name)) by {
                    if k + 1 < p {
                        assert(now_views[k] == before[k]);
                        assert(now_views[k + 1] == before[k + 1]);
                    } else if k + 1 == p {
                        assert(keys@[k] == old_keys[k]);
                        assert(text_le(old_keys[k]@, key@));
                        assert(keys@[k]@ == lower_of(now_views[k].name));
                        assert(keys@[k + 1]@ == lower_of(now_views[k + 1].name));
                    } else if k == p {
                        assert(keys@[k + 1] == old_keys[k]);
                        assert(keys@[k]@ == lower_of(now_views[k].name));
                        assert(keys@[k + 1]@ == lower_of(now_views[k + 1].name));
                    } else {
                        assert(now_views[k] == before[k - 1]);
                        assert(now_views[k + 1] == before[k]);
                    }
                }
            }
            i = i + 1;
        }
        proof {
            assert(self.commands@.take(i as int) =~= self.commands@);
        }
        out
    }
}

} // verus!

verus! {

/// A valid mutation without an id, saved under an id that no command has,
/// makes a new last command with that id, found under it afterwards, created
/// and updated at the same time, and the ids stay unique.
pub proof fn lemma_upsert_creates(s: Seq<CommandView>, m: CommandMutation, fresh: Seq<char>, now: i64)
    requires
        ids_unique(s),
        mutation_refusal(m) is None,
        m.id is None,
        !holds_id(s, fresh),
    ensures
        ({
            let c = saved_command(m, target_id(s, m, fresh), now, now);
            let t = s.push(c);
            &&& c.id == fresh
            &&& c.created_at == c.updated_at
            &&& ids_unique(t)
            &&& holds_id(t, fresh)
            &&& index_of(t, fresh) == s.len()
            &&& t[index_of(t, fresh)] == c
        }),
{
    let c = saved_command(m, target_id(s, m, fresh), now, now);
    let t = s.push(c);
    assert(t[s.len() as int].id == fresh);
    assert forall|i: int, j: int| 0 <= i < t.len() && 0 <= j < t.len() && i != j implies t[i].id != t[j].id by {
        if i < s.len() && j < s.len() {
            assert(t[i] == s[i] && t[j] == s[j]);
        } else if i < s.len() {
            assert(t[i] == s[i]);
        } else if j < s.len() {
            assert(t[j] == s[j]);
        }
    }
}

/// Saving a second mutation under the id that a first one created changes
/// the name and the update time, and keeps the creation time.
pub proof fn lemma_upsert_updates(
    s: Seq<CommandView>,
    first: CommandMutation,
    fresh: Seq<char>,
    created: i64,
    second: CommandMutation,
    other: Seq<char>,
    later: i64,
)
    requires
        ids_unique(s),
        mutation_refusal(first) is None,
        first.id is None,
        !holds_id(s, fresh),
        second.id matches Some(id) && id@ == fresh,
    ensures
        ({
            let t = s.push(saved_command(first, fresh, created, created));
            let id = target_id(t, second, other);
            let c = saved_command(second, id, t[index_of(t, id)].created_at, later);
            &&& id == fresh
            &&& holds_id(t, id)
            &&& c.id == fresh
            &&& c.name == second.name@
            &&& c.created_at == created
            &&& c.updated_at == later
        }),
{
    lemma_upsert_creates(s, first, fresh, created);
}

} // verus!

verus! {

/// A listing holds every command it lists under its own id: where the
/// commands hold `c`, any ordering of them with the same contents holds `c`,
/// and every entry there with `c`'s id is `c` itself.
pub proof fn lemma_listing_keeps_entry(s: Seq<CommandView>, listed: Seq<CommandView>, c: CommandView)
    requires
        ids_unique(s),
        s.contains(c),
        listed.to_multiset() == s.to_multiset(),
    ensures
        listed.contains(c),
        forall|i: int| 0 <= i < listed.len() && listed[i].id == c.id ==> listed[i] == c,
{
    vstd::seq_lib::to_multiset_contains(s, c);
    vstd::seq_lib::to_multiset_contains(listed, c);
    assert forall|i: int| 0 <= i < listed.len() && listed[i].id == c.id implies listed[i] == c by {
        let x = listed[i];
        assert(listed.contains(x));
        vstd::seq_lib::to_multiset_contains(listed, x);
        vstd::seq_lib::to_multiset_contains(s, x);
        let a = choose|a: int| 0 <= a < s.len() && s[a] == x;
        let b = choose|b: int| 0 <= b < s.len() && s[b] == c;
        assert(a == b);
    }
}

} // verus!
