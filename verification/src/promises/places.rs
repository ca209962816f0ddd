//! Paths, where files are kept, and the settings.

use vstd::prelude::*;

use crate::config;
use crate::config::{EnvironmentView, SettingsSource};
use crate::paths;

verus! {

proof fn segments_are_there(path: Seq<char>)
    ensures
        paths::segments(path).len() > 0,
    decreases path.len(),
{
    if path.len() > 0 {
        segments_are_there(path.drop_last());
    }
}

/// The stretches of one text after another: the last of the first and the
/// first of the second are one.
proof fn segments_run_on(a: Seq<char>, b: Seq<char>)
    ensures
        paths::segments(a + b) == paths::segments(a).drop_last() + seq![
            paths::segments(a).last() + paths::segments(b)[0],
        ] + paths::segments(b).drop_first(),
        paths::segments(b).len() > 0,
    decreases b.len(),
{
    let front = paths::segments(a);
    segments_are_there(a);
    segments_are_there(b);
    if b.len() == 0 {
        assert(a + b =~= a);
        assert(front.last() + paths::segments(b)[0] =~= front.last());
        assert(front =~= front.drop_last() + seq![front.last() + paths::segments(b)[0]]
            + paths::segments(b).drop_first());
    } else {
        let shorter = b.drop_last();
        segments_run_on(a, shorter);
        segments_are_there(shorter);
        assert((a + b).drop_last() =~= a + shorter);
        let before = paths::segments(shorter);
        let whole = paths::segments(a + shorter);
        let now = paths::segments(b);
        if b.last() == '/' {
            assert(now =~= before.push(Seq::empty()));
            assert(paths::segments(a + b) =~= front.drop_last() + seq![front.last() + now[0]]
                + now.drop_first());
        } else {
            assert(now =~= before.drop_last().push(before.last().push(b.last())));
            if before.len() == 1 {
                assert((front.last() + before[0]).push(b.last()) =~= front.last() + now[0]);
            } else {
                assert(whole.last() == before.last());
            }
            assert(paths::segments(a + b) =~= front.drop_last() + seq![front.last() + now[0]]
                + now.drop_first());
        }
    }
}

/// Behind a slash the stretches begin anew.
proof fn segments_begin_anew(a: Seq<char>, b: Seq<char>)
    ensures
        paths::segments(a.push('/') + b) == paths::segments(a) + paths::segments(b),
{
    let front = paths::segments(a);
    assert(a.push('/').drop_last() =~= a);
    assert(paths::segments(a.push('/')) =~= front.push(Seq::empty()));
    segments_run_on(a.push('/'), b);
    assert(Seq::<char>::empty() + paths::segments(b)[0] =~= paths::segments(b)[0]);
    assert(front.push(Seq::<char>::empty()).drop_last() =~= front);
    assert(front + seq![paths::segments(b)[0]] + paths::segments(b).drop_first() =~= front
        + paths::segments(b));
}

proof fn counting_runs_on(x: Seq<Seq<char>>, y: Seq<Seq<char>>, absolute: bool)
    requires
        x.len() > 0,
    ensures
        paths::counting(x + y, absolute) == paths::counting(x, absolute) + paths::counting(y, true),
    decreases y.len(),
{
    if y.len() == 0 {
        assert(x + y =~= x);
        assert(paths::counting(x, absolute) + paths::counting(y, true) =~= paths::counting(
            x,
            absolute,
        ));
    } else {
        counting_runs_on(x, y.drop_last(), absolute);
        assert((x + y).drop_last() =~= x + y.drop_last());
        assert((x + y).last() == y.last());
        assert(paths::counting(x + y, absolute) =~= paths::counting(x, absolute) + paths::counting(
            y,
            true,
        ));
    }
}

/// The components that follow where a relative path goes on from another: its
/// own, but for a leading dot.
pub open spec fn going_on(path: Seq<char>) -> Seq<Seq<char>> {
    let parts = paths::components(path);
    if parts.len() > 0 && parts[0] == seq!['.'] {
        parts.drop_first()
    } else {
        parts
    }
}

proof fn counting_without_the_dot(list: Seq<Seq<char>>)
    requires
        list.len() > 0,
    ensures
        ({
            let all = paths::counting(list, false);
            &&& paths::counting(list, true) == if list[0] == seq!['.'] {
                all.drop_first()
            } else {
                all
            }
            &&& list[0] == seq!['.'] ==> all.len() > 0 && all[0] == list[0]
            &&& list[0].len() > 0 ==> all.len() > 0 && all[0] == list[0]
            &&& forall|i: int| 0 < i < all.len() ==> #[trigger] all[i] != seq!['.']
            &&& list[0] != seq!['.'] ==> forall|i: int|
                0 <= i < all.len() ==> #[trigger] all[i] != seq!['.']
        }),
    decreases list.len(),
{
    reveal_with_fuel(paths::counting, 2);
    if list.len() == 1 {
        assert(list.drop_last() =~= Seq::empty());
        assert(paths::counting(list, true) =~= if list[0] == seq!['.'] {
            paths::counting(list, false).drop_first()
        } else {
            paths::counting(list, false)
        });
    } else {
        let front = list.drop_last();
        counting_without_the_dot(front);
        assert(front[0] == list[0]);
        assert(paths::counting(list, true) =~= if list[0] == seq!['.'] {
            paths::counting(list, false).drop_first()
        } else {
            paths::counting(list, false)
        });
    }
}

/// A relative path that is joined to another goes on from there: the result has
/// the components of the one and then those of the other, and so lies below
/// it. An absolute path stays what it is.
pub proof fn a_joined_path_goes_on(base: Seq<char>, path: Seq<char>)
    requires
        base.len() > 0,
    ensures
        paths::rooted(path) ==> paths::joined_path(base, path) == path,
        !paths::rooted(path) ==> paths::components(paths::joined_path(base, path))
            == paths::components(base) + going_on(path),
        !paths::rooted(path) ==> paths::below(paths::joined_path(base, path), base),
{
    if !paths::rooted(path) {
        let joined = paths::joined_path(base, path);
        let absolute = paths::rooted(base);
        let list = paths::segments(path);
        assert(joined[0] == base[0]);
        segments_are_there(path);
        counting_without_the_dot(list);
        assert(paths::components(path) =~= paths::counting(list, false));
        assert(going_on(path) =~= paths::counting(list, true)) by {
            let parts = paths::components(path);
            if list[0] != seq!['.'] && parts.len() > 0 {
                assert(parts[0] != seq!['.']);
            }
        }
        if base.last() != '/' {
            segments_are_there(base);
            assert(joined =~= base.push('/') + path);
            segments_begin_anew(base, path);
            counting_runs_on(paths::segments(base), list, absolute);
        } else {
            let a = base.drop_last();
            segments_are_there(a);
            assert(base =~= a.push('/'));
            assert(joined =~= a.push('/') + path);
            segments_begin_anew(a, path);
            counting_runs_on(paths::segments(a), list, absolute);
            let own = paths::segments(base);
            assert(own =~= paths::segments(a).push(Seq::empty()));
            assert(own.drop_last() =~= paths::segments(a));
            assert(paths::counting(own, absolute) == paths::counting(
                paths::segments(a),
                absolute,
            ));
        }
        let whole = paths::components(joined);
        let start = paths::components(base);
        assert(whole =~= start + going_on(path));
        assert(start =~= whole.subrange(0, start.len() as int));
    }
}

/// Names are compared whole: a path that goes on with more of a name is not
/// below what has the shorter name.
pub proof fn a_longer_name_is_another(base: Seq<char>, more: Seq<char>)
    requires
        paths::last_name(base) is Some,
        base.last() != '/',
        paths::segments(base).last() != seq!['.'],
        more.len() > 0,
        more[0] != '/',
    ensures
        !paths::below(base + more, base),
{
    reveal_strlit("/");
    let front = paths::segments(base);
    let absolute = paths::rooted(base);
    segments_are_there(base);
    assert(base.len() > 0) by {
        if base.len() == 0 {
            reveal_with_fuel(paths::counting, 2);
            assert(front =~= seq![Seq::<char>::empty()]);
            assert(front.drop_last() =~= Seq::empty());
            assert(paths::components(base) =~= Seq::empty());
        }
    }
    last_stretch(base);
    first_stretch(more);
    segments_run_on(base, more);
    let rest = paths::segments(more);
    let grown = front.last() + rest[0];
    let head = front.drop_last().push(grown);
    assert(paths::segments(base + more) =~= head + rest.drop_first());
    counting_runs_on(head, rest.drop_first(), absolute);
    assert(head.drop_last() =~= front.drop_last());
    let kept = paths::counting(front.drop_last(), absolute);
    assert(grown.len() >= 2);
    assert(paths::counting(head, absolute) == kept.push(grown));
    assert(paths::counting(front, absolute) == kept.push(front.last()));
    assert((base + more)[0] == base[0]);
    let own = paths::components(base);
    let other = paths::components(base + more);
    let at = own.len() - 1;
    assert(own[at] == front.last());
    assert(other[at] == grown);
    if paths::below(base + more, base) {
        assert(own[at] == other.subrange(0, own.len() as int)[at]);
    }
}

proof fn last_stretch(path: Seq<char>)
    requires
        path.len() > 0,
        path.last() != '/',
    ensures
        paths::segments(path).last().len() > 0,
{
    segments_are_there(path.drop_last());
}

proof fn first_stretch(path: Seq<char>)
    requires
        path.len() > 0,
        path[0] != '/',
    ensures
        paths::segments(path).len() > 0,
        paths::segments(path)[0].len() > 0,
    decreases path.len(),
{
    segments_are_there(path.drop_last());
    if path.len() > 1 {
        first_stretch(path.drop_last());
    }
}

/// What the environment says outright of where files go is heeded, and else the
/// platform's directories are used. The database and the sessions lie in the
/// directory of the state, the socket and the lock in that of the runtime, and
/// no two of them are one.
pub proof fn files_go_where_they_are_asked_to(env: EnvironmentView)
    requires
        config::paths_for(env).state_dir.len() > 0,
        config::paths_for(env).runtime_dir.len() > 0,
    ensures
        ({
            let places = config::paths_for(env);
            &&& places.state_dir == match env.state_override {
                Some(path) => path,
                None => env.data_dir,
            }
            &&& env.runtime_override matches Some(path) ==> places.runtime_dir == path
            &&& env.config_override matches Some(path) ==> places.config_file == path
            &&& env.runtime_override is None ==> (match env.xdg_runtime_dir {
                Some(path) => path.len() > 0 ==> paths::below(places.runtime_dir, path),
                None => env.temp_dir.len() > 0 ==> paths::below(places.runtime_dir, env.temp_dir),
            })
            &&& env.config_override is None && env.config_dir.len() > 0 ==> paths::below(
                places.config_file,
                env.config_dir,
            )
            &&& paths::below(places.database, places.state_dir)
            &&& paths::below(places.sessions_dir, places.state_dir)
            &&& paths::below(places.socket, places.runtime_dir)
            &&& paths::below(places.lock_file, places.runtime_dir)
            &&& places.database != places.sessions_dir
            &&& places.socket != places.lock_file
        }),
{
    let places = config::paths_for(env);
    reveal_strlit("loom.db");
    reveal_strlit("sessions");
    reveal_strlit("loomd.sock");
    reveal_strlit("loomd.lock");
    reveal_strlit("loomterm");
    reveal_strlit("loomterm-");
    reveal_strlit("config.toml");
    a_joined_path_goes_on(places.state_dir, "loom.db"@);
    a_joined_path_goes_on(places.state_dir, "sessions"@);
    a_joined_path_goes_on(places.runtime_dir, "loomd.sock"@);
    a_joined_path_goes_on(places.runtime_dir, "loomd.lock"@);
    if env.config_dir.len() > 0 {
        a_joined_path_goes_on(env.config_dir, "config.toml"@);
    }
    match env.xdg_runtime_dir {
        Some(path) => {
            if path.len() > 0 {
                a_joined_path_goes_on(path, "loomterm"@);
            }
        },
        None => {
            if env.temp_dir.len() > 0 {
                a_joined_path_goes_on(
                    env.temp_dir,
                    "loomterm-"@ + crate::text::decimal(env.uid as nat),
                );
            }
        },
    }
    assert(places.database.len() + 1 == places.sessions_dir.len());
    let n = places.socket.len() as int;
    assert(places.socket[n - 4] == 's' && places.lock_file[n - 4] == 'l');
}

/// Two users who share a directory for temporary files do not share a runtime
/// directory.
pub proof fn users_have_their_own(env: EnvironmentView, other: EnvironmentView)
    requires
        env.runtime_override is None && other.runtime_override is None,
        env.xdg_runtime_dir is None && other.xdg_runtime_dir is None,
        env.temp_dir == other.temp_dir,
        env.uid != other.uid,
    ensures
        config::paths_for(env).runtime_dir != config::paths_for(other).runtime_dir,
{
    reveal_strlit("loomterm-");
    let a = crate::text::decimal(env.uid as nat);
    let b = crate::text::decimal(other.uid as nat);
    super::words::a_numeral_is_its_number(env.uid as nat);
    super::words::a_numeral_is_its_number(other.uid as nat);
    let x = config::paths_for(env).runtime_dir;
    let y = config::paths_for(other).runtime_dir;
    if x == y {
        assert(x.len() - a.len() == y.len() - b.len());
        assert(x.skip(x.len() - a.len()) =~= a);
        assert(y.skip(y.len() - b.len()) =~= b);
        assert(a == b);
    }
}

/// Without a file of settings eight executions run at once, a quarter of a
/// gibibyte is captured of each, what has ended is kept for a week and within a
/// gibibyte, a command that is cancelled has two seconds to end, and lines are
/// handed to `/bin/sh`.
pub proof fn the_settings_are_known(config_file: Seq<char>)
    ensures
        config::settings_in_force(config_file, SettingsSource::Missing) matches Ok(settings)
            && settings.max_concurrent_executions == 8 && settings.capture_limit_bytes == 256 * 1024
            * 1024 && settings.retention_days == 7 && settings.retention_bytes == 1024 * 1024 * 1024
            && settings.cancel_grace_ms == 2_000 && settings.shell == "/bin/sh"@
            && settings.supervisor_path is None,
{
}

/// The settings that a file holds are in force as they stand there, unless
/// nothing could run under them; and a file that cannot be understood is
/// refused.
pub proof fn settings_are_heeded(config_file: Seq<char>, source: SettingsSource)
    ensures
        match source {
            SettingsSource::Parsed(parsed) => {
                &&& parsed.max_concurrent_executions > 0 ==> (config::settings_in_force(
                    config_file,
                    source,
                ) matches Ok(settings) && settings == parsed@)
                &&& parsed.max_concurrent_executions == 0 ==> config::settings_in_force(
                    config_file,
                    source,
                ) is Err
            },
            SettingsSource::Malformed(message) => config::settings_in_force(
                config_file,
                source,
            ) is Err,
            SettingsSource::Missing => config::settings_in_force(config_file, source) is Ok,
        },
{
}

/// Each file has its own name in its directory: the database, the sessions, the
/// socket and the lock, and the settings where no file is named for them; and
/// so has the runtime directory where none is named.
pub proof fn files_have_their_names(env: EnvironmentView)
    requires
        config::paths_for(env).state_dir.len() > 0,
        config::paths_for(env).runtime_dir.len() > 0,
        env.config_dir.len() > 0 && env.temp_dir.len() > 0,
        env.xdg_runtime_dir matches Some(path) ==> path.len() > 0,
    ensures
        ({
            let places = config::paths_for(env);
            let state = paths::components(places.state_dir);
            let runtime = paths::components(places.runtime_dir);
            &&& paths::components(places.database) == state + going_on("loom.db"@)
            &&& paths::components(places.sessions_dir) == state + going_on("sessions"@)
            &&& paths::components(places.socket) == runtime + going_on("loomd.sock"@)
            &&& paths::components(places.lock_file) == runtime + going_on("loomd.lock"@)
            &&& env.config_override is None ==> paths::components(places.config_file)
                == paths::components(env.config_dir) + going_on("config.toml"@)
            &&& env.runtime_override is None ==> (match env.xdg_runtime_dir {
                Some(path) => runtime == paths::components(path) + going_on("loomterm"@),
                None => runtime == paths::components(env.temp_dir) + going_on(
                    "loomterm-"@ + crate::text::decimal(env.uid as nat),
                ),
            })
        }),
{
    let places = config::paths_for(env);
    reveal_strlit("loom.db");
    reveal_strlit("sessions");
    reveal_strlit("loomd.sock");
    reveal_strlit("loomd.lock");
    reveal_strlit("loomterm");
    reveal_strlit("loomterm-");
    reveal_strlit("config.toml");
    a_joined_path_goes_on(places.state_dir, "loom.db"@);
    a_joined_path_goes_on(places.state_dir, "sessions"@);
    a_joined_path_goes_on(places.runtime_dir, "loomd.sock"@);
    a_joined_path_goes_on(places.runtime_dir, "loomd.lock"@);
    a_joined_path_goes_on(env.config_dir, "config.toml"@);
    match env.xdg_runtime_dir {
        Some(path) => {
            a_joined_path_goes_on(path, "loomterm"@);
        },
        None => {
            a_joined_path_goes_on(
                env.temp_dir,
                "loomterm-"@ + crate::text::decimal(env.uid as nat),
            );
        },
    }
}

} // verus!
