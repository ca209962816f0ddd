//! What setting up a project leaves plain, so that it reads back as it was
//! written.

use vstd::prelude::*;

use crate::json;
use crate::json::JsonTree;
use crate::onboarding;
use crate::onboarding::HookEnvironmentView;

verus! {

proof fn others_are_plain(handlers: Seq<JsonTree>, provider: Seq<char>, levels: nat)
    requires
        json::plain_items(handlers, levels),
    ensures
        json::plain_items(onboarding::others(handlers, provider), levels),
    decreases handlers.len(),
{
    if handlers.len() > 0 {
        let before = handlers.drop_last();
        assert forall|i: int| 0 <= i < before.len() implies json::plain(
            #[trigger] before[i],
            levels,
        ) by {
            assert(before[i] == handlers[i]);
        }
        others_are_plain(before, provider, levels);
        assert(json::plain(handlers[handlers.len() - 1], levels));
        let left = onboarding::others(handlers, provider);
        let some = onboarding::others(before, provider);
        assert forall|i: int| 0 <= i < left.len() implies json::plain(
            #[trigger] left[i],
            levels,
        ) by {
            if i < some.len() {
                assert(left[i] == some[i]);
            }
        }
    }
}

proof fn stripped_is_plain(group: JsonTree, provider: Seq<char>, levels: nat)
    requires
        json::plain(group, levels),
    ensures
        json::plain(onboarding::stripped(group, provider), levels),
{
    match (group, onboarding::handlers_of(group)) {
        (JsonTree::Object(members), Some(handlers)) => {
            let inner = (levels - 1) as nat;
            assert(json::plain_members(members, inner));
            json::found_is_plain(members, "hooks"@, inner);
            assert(json::plain(JsonTree::List(handlers), inner));
            others_are_plain(handlers, provider, (inner - 1) as nat);
            let left = JsonTree::List(onboarding::others(handlers, provider));
            assert(json::plain(left, inner));
            json::setting_stays_plain(members, "hooks"@, left, inner);
        },
        _ => {},
    }
}

proof fn cleaned_are_plain(groups: Seq<JsonTree>, provider: Seq<char>, levels: nat)
    requires
        json::plain_items(groups, levels),
    ensures
        json::plain_items(onboarding::cleaned(groups, provider), levels),
    decreases groups.len(),
{
    if groups.len() > 0 {
        let before = groups.drop_last();
        assert forall|i: int| 0 <= i < before.len() implies json::plain(
            #[trigger] before[i],
            levels,
        ) by {
            assert(before[i] == groups[i]);
        }
        cleaned_are_plain(before, provider, levels);
        assert(json::plain(groups[groups.len() - 1], levels));
        stripped_is_plain(groups.last(), provider, levels);
        let left = onboarding::cleaned(groups, provider);
        let some = onboarding::cleaned(before, provider);
        assert forall|i: int| 0 <= i < left.len() implies json::plain(
            #[trigger] left[i],
            levels,
        ) by {
            if i < some.len() {
                assert(left[i] == some[i]);
            }
        }
    }
}

proof fn renewed_are_plain(
    groups: Seq<JsonTree>,
    desired: JsonTree,
    provider: Seq<char>,
    levels: nat,
)
    requires
        levels >= 2,
        json::plain_items(groups, levels),
        json::plain(desired, (levels - 2) as nat),
    ensures
        json::plain_items(onboarding::renewed(groups, desired, provider), levels),
{
    cleaned_are_plain(groups, provider, levels);
    let own = onboarding::own_group(desired);
    let list = own->Object_0[0].1;
    let inner = (levels - 1) as nat;
    assert(list->List_0[0] == desired);
    assert(json::plain(list, inner)) by {
        reveal_with_fuel(json::plain, 2);
    }
    assert(json::plain(own, levels));
    let some = onboarding::cleaned(groups, provider);
    let all = onboarding::renewed(groups, desired, provider);
    assert forall|i: int| 0 <= i < all.len() implies json::plain(#[trigger] all[i], levels) by {
        if i < some.len() {
            assert(all[i] == some[i]);
        }
    }
}

proof fn renewed_events_are_plain(
    hooks: Seq<(Seq<char>, JsonTree)>,
    events: Seq<Seq<char>>,
    desired: JsonTree,
    provider: Seq<char>,
    levels: nat,
)
    requires
        levels >= 3,
        json::plain_members(hooks, levels),
        json::plain(desired, (levels - 3) as nat),
    ensures
        json::plain_members(
            onboarding::renewed_events(hooks, events, desired, provider),
            levels,
        ),
    decreases events.len(),
{
    if events.len() > 0 {
        let before = onboarding::renewed_events(hooks, events.drop_last(), desired, provider);
        renewed_events_are_plain(hooks, events.drop_last(), desired, provider, levels);
        json::found_is_plain(before, events.last(), levels);
        let groups = onboarding::groups_of(before, events.last());
        let inner = (levels - 1) as nat;
        assert(json::plain_items(groups, inner));
        renewed_are_plain(groups, desired, provider, inner);
        let list = JsonTree::List(onboarding::renewed(groups, desired, provider));
        assert(json::plain(list, levels));
        json::setting_stays_plain(before, events.last(), list, levels);
    }
}

/// The handler that an agent is to call is plain.
pub proof fn handler_is_plain(
    command: Seq<char>,
    provider: Seq<char>,
    claude_name: Seq<char>,
    env: HookEnvironmentView,
)
    ensures
        json::plain(onboarding::handler_for(command, provider, claude_name, env), 2),
{
    let handler = onboarding::handler_for(command, provider, claude_name, env);
    let members = handler->Object_0;
    let vars = onboarding::passed_on(env);
    texts_are_plain(vars);
    assert forall|i: int| 0 <= i < members.len() implies json::plain(
        (#[trigger] members[i]).1,
        1,
    ) by {
        if provider == claude_name && i == 0 {
            let args = members[0].1->List_0;
            assert forall|k: int| 0 <= k < args.len() implies json::plain(
                #[trigger] args[k],
                0,
            ) by {
                if vars.len() > 0 {
                    let front = onboarding::argument_assignments(vars);
                    if k < front.len() {
                        assert(args[k] == front[k]);
                    }
                }
            }
        }
    }
}

proof fn texts_are_plain(vars: Seq<(Seq<char>, Seq<char>)>)
    ensures
        json::plain_items(onboarding::argument_assignments(vars), 0),
    decreases vars.len(),
{
    if vars.len() > 0 {
        texts_are_plain(vars.drop_last());
        let some = onboarding::argument_assignments(vars.drop_last());
        let all = onboarding::argument_assignments(vars);
        assert forall|i: int| 0 <= i < all.len() implies json::plain(#[trigger] all[i], 0) by {
            if i < some.len() {
                assert(all[i] == some[i]);
            }
        }
    }
}

/// A hooks file that is plain is changed to a plain one.
pub proof fn changed_hooks_are_plain(
    path: Seq<char>,
    root: JsonTree,
    desired: JsonTree,
    provider: Seq<char>,
    claude_name: Seq<char>,
    force: bool,
)
    requires
        json::plain(root, json::READABLE_LEVELS as nat),
        json::plain(desired, 2),
        onboarding::hooks_change(path, root, desired, provider, claude_name, force) matches Ok(
            Some(_),
        ),
    ensures
        json::plain(
            onboarding::changed_root(path, root, desired, provider, claude_name, force),
            json::READABLE_LEVELS as nat,
        ),
{
    let members = root->Object_0;
    let events = onboarding::followed(provider, claude_name);
    assert(json::plain_members(members, 126));
    json::found_is_plain(members, "hooks"@, 126);
    let hooks = onboarding::hooks_within(root);
    assert(json::plain_members(hooks, 125));
    json::plain_within_more(desired, 2, 122);
    renewed_events_are_plain(hooks, events, desired, provider, 125);
    let new_hooks = JsonTree::Object(
        onboarding::renewed_events(hooks, events, desired, provider),
    );
    assert(json::plain(new_hooks, 126));
    json::setting_stays_plain(members, "hooks"@, new_hooks, 126);
}

/// A file that names servers and is plain is changed to a plain one.
pub proof fn entered_server_is_plain(
    path: Seq<char>,
    root: JsonTree,
    command: Seq<char>,
    force: bool,
)
    requires
        json::plain(root, json::READABLE_LEVELS as nat),
        onboarding::servers_change(path, root, command, force) matches Ok(Some(_)),
    ensures
        json::plain(
            onboarding::entered_root(path, root, command, force),
            json::READABLE_LEVELS as nat,
        ),
{
    let members = root->Object_0;
    assert(json::plain_members(members, 126));
    json::found_is_plain(members, "mcpServers"@, 126);
    let servers = onboarding::servers_of(root);
    assert(json::plain_members(servers, 125));
    let entry = onboarding::server_for(command);
    assert(json::plain(entry, 2)) by {
        reveal_with_fuel(json::plain, 3);
    }
    json::plain_within_more(entry, 2, 125);
    json::setting_stays_plain(servers, "loomterm"@, entry, 125);
    let all = JsonTree::Object(json::with_member(servers, "loomterm"@, entry));
    assert(json::plain(all, 126));
    json::setting_stays_plain(members, "mcpServers"@, all, 126);
}

} // verus!
