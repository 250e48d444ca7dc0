//! What the operations note in the launcher's log, and what they hand on when something fails.

use vstd::prelude::*;
use vstd::utf8::*;

use crate::command_laws::law_text_is_read_as_written;
use crate::effect::EffectView;
use crate::effect::OutputView;
use crate::effect::Phase;
use crate::effect::Query;
use crate::effect::ReplyOf;
use crate::effect::ReplyView;
use crate::linux_service;
use crate::linux_service::LinuxService;
use crate::macos_service;
use crate::macos_service::MacService;
use crate::native::decoded;
use crate::programs::program_step;
use crate::programs::ProgramSearchOf;
use crate::search::env_step;
use crate::search::EnvSearchOf;
use crate::text::contains;
use crate::text::decimal;
use crate::text::occurs_at;
use crate::text::truth;
use crate::version_laws::all_digits;
use crate::version_laws::law_decimal_reads_back;
use crate::version_laws::value;

verus! {

/// A truth value is noted as the word for it.
pub proof fn law_truth_is_told()
    ensures
        truth(true) == "true"@,
        truth(false) == "false"@,
{
}

/// What launchd says of the service is noted as the answer that is given.
pub proof fn law_running_is_noted(
    mac: MacService,
    o: OutputView,
    before: Seq<char>,
    behind: Seq<char>,
)
    requires
        o.stdout == encode_utf8(before + "state = running"@ + behind),
    ensures
        macos_service::running_step(mac, Query::Waiting, ReplyOf::Command(Some(o))) == (
            Query::Ended(o.success),
            seq![
                EffectView::Log(
                    "service_is_running: "@ + if o.success {
                        "true"@
                    } else {
                        "false"@
                    },
                ),
            ],
        ),
        macos_service::running_step(mac, Query::Waiting, ReplyOf::Command(None)) == (
            Query::Ended(false),
            Seq::<EffectView>::empty(),
        ),
{
    let key = "state = running"@;
    let text = before + key + behind;
    law_text_is_read_as_written(text);
    let n = before.len() as int;
    assert(text.subrange(n, n + key.len()) =~= key);
    assert(occurs_at(text, key, n));
    assert(contains(text, key));
}

// ---- starting, stopping, restarting ----

/// Starting, stopping and restarting the service are noted in the log at their beginning and at
/// their end, whatever happens between.
pub proof fn law_service_operations_are_noted(
    mac: MacService,
    first: ReplyView,
    reply: ReplyView,
)
    ensures
        macos_service::start_step(mac, Phase::Start, first).1[0] == EffectView::Log(
            "service_start: begin"@,
        ),
        macos_service::start_step(mac, Phase::Defining, reply).1.last() == EffectView::Log(
            "service_start: end"@,
        ),
        macos_service::stop_step(mac, Phase::Start, first).1[0] == EffectView::Log(
            "service_stop: begin"@,
        ),
        macos_service::stop_step(mac, Phase::Checking, reply).1.last() == EffectView::Log(
            "service_stop: end"@,
        ),
        macos_service::restart_step(mac, Phase::Start, first).1[0] == EffectView::Log(
            "service_restart: begin"@,
        ),
        macos_service::restart_step(mac, Phase::Defining, reply).1.last() == EffectView::Log(
            "service_restart: end"@,
        ),
        linux_service::start_step(Phase::Start, first).1[0] == EffectView::Log(
            "service_start: begin"@,
        ),
        linux_service::start_step(Phase::Defining, reply).1.last() == EffectView::Log(
            "service_start: end"@,
        ),
        linux_service::stop_step(Phase::Start).1[0] == EffectView::Log("service_stop: begin"@),
        linux_service::stop_step(Phase::Start).1.last() == EffectView::Log("service_stop: end"@),
        linux_service::restart_step(Phase::Start, first).1[0] == EffectView::Log(
            "service_restart: begin"@,
        ),
        linux_service::restart_step(Phase::Defining, reply).1.last() == EffectView::Log(
            "service_restart: end"@,
        ),
{
}

/// Whether a step that goes on after a failure notes the reason, before anything else, and is
/// otherwise the same as after a success.
pub open spec fn notes_reason(
    line: Seq<char>,
    e: Seq<char>,
    failed: (Phase, Seq<EffectView>),
    succeeded: (Phase, Seq<EffectView>),
) -> bool {
    &&& failed.0 == succeeded.0
    &&& failed.1 == seq![EffectView::Log(line + e)] + succeeded.1
}

/// Whether a step that goes on after a failure warns of it and notes the reason, and is otherwise
/// the same as after a success.
pub open spec fn warns_of_reason(
    warning: Seq<char>,
    line: Seq<char>,
    e: Seq<char>,
    failed: (Phase, Seq<EffectView>),
    succeeded: (Phase, Seq<EffectView>),
) -> bool {
    &&& failed.0 == succeeded.0
    &&& failed.1 == seq![EffectView::Warn(warning + e), EffectView::Log(line + e)] + succeeded.1
}

/// A definition that could not be written keeps no operation back: its reason is noted, and the
/// operation goes on as it would have done.
pub proof fn law_failed_definitions_are_noted(mac: MacService, enabled: bool, e: Seq<char>)
    ensures
        ({
            let bad: ReplyView = ReplyOf::Done(Err(e));
            let good: ReplyView = ReplyOf::Done(Ok(()));
            &&& notes_reason(
                "service_start: 写 KeepAlive=true plist 失败 "@,
                e,
                macos_service::start_step(mac, Phase::Defining, bad),
                macos_service::start_step(mac, Phase::Defining, good),
            )
            &&& notes_reason(
                "service_stop: 写 KeepAlive=false plist 失败 "@,
                e,
                macos_service::stop_step(mac, Phase::Defining, bad),
                macos_service::stop_step(mac, Phase::Defining, good),
            )
            &&& notes_reason(
                "service_restart: 写 KeepAlive=true plist 失败 "@,
                e,
                macos_service::restart_step(mac, Phase::Defining, bad),
                macos_service::restart_step(mac, Phase::Defining, good),
            )
            &&& notes_reason(
                "service_start: ensure_definition 失败 "@,
                e,
                linux_service::start_step(Phase::Defining, bad),
                linux_service::start_step(Phase::Defining, good),
            )
            &&& notes_reason(
                "service_restart: ensure_definition 失败 "@,
                e,
                linux_service::restart_step(Phase::Defining, bad),
                linux_service::restart_step(Phase::Defining, good),
            )
            &&& warns_of_reason(
                "dsh-launcher: 写入 LaunchAgent 失败: "@,
                "set_autostart: 写入失败 "@,
                e,
                macos_service::set_autostart_step(mac, enabled, Phase::Defining, bad),
                macos_service::set_autostart_step(mac, enabled, Phase::Defining, good),
            )
            &&& warns_of_reason(
                "dsh-launcher: 写入 systemd unit 失败: "@,
                "set_autostart: 写入失败 "@,
                e,
                linux_service::set_autostart_step(enabled, Phase::Defining, bad),
                linux_service::set_autostart_step(enabled, Phase::Defining, good),
            )
        }),
{
    let bad: ReplyView = ReplyOf::Done(Err(e));
    let good: ReplyView = ReplyOf::Done(Ok(()));
    assert(macos_service::start_step(mac, Phase::Defining, bad).1 =~= seq![
        EffectView::Log("service_start: 写 KeepAlive=true plist 失败 "@ + e),
    ] + macos_service::start_step(mac, Phase::Defining, good).1);
    assert(macos_service::stop_step(mac, Phase::Defining, bad).1 =~= seq![
        EffectView::Log("service_stop: 写 KeepAlive=false plist 失败 "@ + e),
    ] + macos_service::stop_step(mac, Phase::Defining, good).1);
    assert(macos_service::restart_step(mac, Phase::Defining, bad).1 =~= seq![
        EffectView::Log("service_restart: 写 KeepAlive=true plist 失败 "@ + e),
    ] + macos_service::restart_step(mac, Phase::Defining, good).1);
    assert(linux_service::start_step(Phase::Defining, bad).1 =~= seq![
        EffectView::Log("service_start: ensure_definition 失败 "@ + e),
    ] + linux_service::start_step(Phase::Defining, good).1);
    assert(linux_service::restart_step(Phase::Defining, bad).1 =~= seq![
        EffectView::Log("service_restart: ensure_definition 失败 "@ + e),
    ] + linux_service::restart_step(Phase::Defining, good).1);
    assert(macos_service::set_autostart_step(mac, enabled, Phase::Defining, bad).1 =~= seq![
        EffectView::Warn("dsh-launcher: 写入 LaunchAgent 失败: "@ + e),
        EffectView::Log("set_autostart: 写入失败 "@ + e),
    ] + macos_service::set_autostart_step(mac, enabled, Phase::Defining, good).1);
    assert(linux_service::set_autostart_step(enabled, Phase::Defining, bad).1 =~= seq![
        EffectView::Warn("dsh-launcher: 写入 systemd unit 失败: "@ + e),
        EffectView::Log("set_autostart: 写入失败 "@ + e),
    ] + linux_service::set_autostart_step(enabled, Phase::Defining, good).1);
}

// ---- definitions ----

/// Whether a line holds, between two texts, the number of bytes of a text that fits in memory.
pub open spec fn tells_size(
    line: EffectView,
    before: Seq<char>,
    text: Seq<char>,
    behind: Seq<char>,
) -> bool {
    exists|digits: Seq<char>|
        {
            &&& #[trigger] all_digits(digits)
            &&& value(digits) == encode_utf8(text).len()
            &&& line == EffectView::Log(before + digits + behind)
        }
}

/// A written property list is noted with its size in bytes, and where it could not be written
/// that is noted with the reason and the reason handed on.
pub proof fn law_written_definitions_are_noted(
    mac: MacService,
    run_at_load: bool,
    xml: Seq<char>,
    e: Seq<char>,
)
    requires
        encode_utf8(xml).len() <= usize::MAX,
    ensures
        ({
            let (s1, e1) = macos_service::write_step(
                mac,
                run_at_load,
                macos_service::WriteOf::Text,
                ReplyOf::Text(Ok(xml)),
            );
            let (s2, e2) = macos_service::write_step(mac, run_at_load, s1, ReplyOf::Done(Ok(())));
            let (s3, e3) = macos_service::write_step(mac, run_at_load, s1, ReplyOf::Done(Err(e)));
            &&& s2 == macos_service::WriteView::Ended(Ok(()))
            &&& e2.len() == 1
            &&& tells_size(
                e2[0],
                "write_plist: 已写入 plist run_at_load="@ + truth(run_at_load) + " ("@,
                xml,
                ")"@,
            )
            &&& s3 == macos_service::WriteView::Ended(Err(e))
            &&& e3 == seq![EffectView::Log("write_plist: 写入失败 "@ + e)]
        }),
        ({
            let (s1, e1) = macos_service::ensure_step(
                mac,
                macos_service::EnsureOf::NewText,
                ReplyOf::Text(Ok(xml)),
            );
            let (s2, e2) = macos_service::ensure_step(mac, s1, ReplyOf::Done(Ok(())));
            let (s3, e3) = macos_service::ensure_step(mac, s1, ReplyOf::Done(Err(e)));
            &&& s2 == macos_service::EnsureView::Ended(Ok(()))
            &&& e2.len() == 1
            &&& tells_size(e2[0], "ensure_definition: 已写入 plist ("@, xml, ")"@)
            &&& s3 == macos_service::EnsureView::Ended(Err(e))
            &&& e3 == seq![EffectView::Log("ensure_definition: 写入失败 "@ + e)]
        }),
{
    let n = encode_utf8(xml).len();
    law_decimal_reads_back(n);
    assert(macos_service::byte_length(xml) == n);
    assert(all_digits(decimal(n)));
}

/// A written unit is noted with its place and the choice about login; where it could not be
/// written the reason is handed on.
pub proof fn law_written_units_are_noted(linux: LinuxService, enabled: bool, e: Seq<char>)
    ensures
        linux_service::write_step(
            linux,
            enabled,
            linux_service::WriteOf::File,
            ReplyOf::Done(Ok(())),
        ) == (
            linux_service::WriteView::Ended(Ok(())),
            seq![
                EffectView::Log(
                    "write_unit: 已写入 "@ + decoded(linux_service::definition_path(linux.env))
                        + " enabled="@ + truth(enabled),
                ),
            ],
        ),
        linux_service::write_step(
            linux,
            enabled,
            linux_service::WriteOf::File,
            ReplyOf::Done(Err(e)),
        ) == (
            linux_service::WriteView::Ended(Err("写入 systemd unit 失败: "@ + e)),
            Seq::<EffectView>::empty(),
        ),
{
}

/// Whether there is a definition is noted, with its place and the answer, on both platforms.
pub proof fn law_looks_are_noted(mac: MacService, linux: LinuxService, there: bool)
    ensures
        macos_service::ensure_step(
            mac,
            macos_service::EnsureOf::Looking,
            ReplyOf::Flag(there),
        ).1[0] == EffectView::Log(
            "ensure_definition: path="@ + decoded(macos_service::definition_path(mac.env))
                + " exists="@ + truth(there),
        ),
        linux_service::ensure_step(
            linux,
            linux_service::EnsureOf::Looking,
            ReplyOf::Flag(there),
        ).1[0] == EffectView::Log(
            "ensure_definition: path="@ + decoded(linux_service::definition_path(linux.env))
                + " exists="@ + truth(there),
        ),
{
}

/// Turning the restart switch off notes its success and hands on what kept it from reading or
/// writing the definition.
pub proof fn law_turning_off_is_noted(mac: MacService, e: Seq<char>)
    ensures
        macos_service::off_step(
            mac,
            macos_service::RewriteOf::Reading,
            ReplyOf::Text(Err(e)),
        ) == (
            macos_service::RewriteView::Ended(Err("读取 plist 失败: "@ + e)),
            Seq::<EffectView>::empty(),
        ),
        macos_service::off_step(
            mac,
            macos_service::RewriteOf::Writing,
            ReplyOf::Done(Err(e)),
        ) == (
            macos_service::RewriteView::Ended(Err("写入 plist 失败: "@ + e)),
            Seq::<EffectView>::empty(),
        ),
        macos_service::off_step(
            mac,
            macos_service::RewriteOf::Writing,
            ReplyOf::Done(Ok(())),
        ) == (
            macos_service::RewriteView::Ended(Ok(())),
            seq![
                EffectView::Log(
                    "write_plist_keepalive_off: 已把 KeepAlive 改为 false（文本替换）"@,
                ),
            ],
        ),
{
}

/// An upgrade is noted when it begins, and so is how it went.
pub proof fn law_upgrades_are_noted(
    mac: MacService,
    linux: LinuxService,
    reply: ReplyView,
    e: Seq<char>,
)
    requires
        reply is Text ==> reply->Text_0 is Err,
    ensures
        macos_service::ensure_step(mac, macos_service::EnsureOf::Inspecting, reply).1[0]
            == EffectView::Log(
            "ensure_definition: 检测到旧版 plist（缺 EnvironmentVariables），升级"@,
        ),
        macos_service::ensure_step(
            mac,
            macos_service::EnsureOf::OldFile,
            ReplyOf::Done(Ok(())),
        ).1[0] == EffectView::Log("ensure_definition: 旧版 plist 已升级，重新装载"@),
        macos_service::ensure_step(
            mac,
            macos_service::EnsureOf::OldFile,
            ReplyOf::Done(Err(e)),
        ).1 == seq![EffectView::Log("ensure_definition: 升级写入失败 "@ + e)],
        linux_service::ensure_step(linux, linux_service::EnsureOf::Inspecting, reply).1[0]
            == EffectView::Log(
            "ensure_definition: 检测到旧版 unit（缺 Environment=PATH=），升级"@,
        ),
{
}

// ---- searches ----

/// What was found for the command line and the environment is noted, and what was not found is
/// the reason that is handed on.
pub proof fn law_findings_are_noted(
    own: Option<Seq<char>>,
    path: Seq<char>,
    dsh: Seq<u8>,
    node: Seq<u8>,
)
    ensures
        env_step(own, EnvSearchOf::Waiting, ReplyOf::SearchPath(Some(path))).1 == seq![
            EffectView::Log("service_env: 登录 shell PATH="@ + path),
        ],
        env_step(own, EnvSearchOf::Waiting, ReplyOf::SearchPath(None)).1 == seq![
            EffectView::Log("service_env: 登录 shell PATH 解析失败，回退当前进程 PATH"@),
        ],
        program_step(ProgramSearchOf::Node(dsh), ReplyOf::Found(Some(node))).1 == seq![
            EffectView::Log("dsh_program: node="@ + decoded(node) + " dsh="@ + decoded(dsh)),
        ],
        program_step(ProgramSearchOf::Dsh, ReplyOf::Found(None)).0 == ProgramSearchOf::<
            Seq<char>,
            Seq<u8>,
            Seq<Seq<char>>,
        >::Ended(
            Err("dsh 不在 PATH，无法生成服务定义（已尝试登录 shell 与常见安装路径）"@),
        ),
        program_step(ProgramSearchOf::Node(dsh), ReplyOf::Found(None)).0 == ProgramSearchOf::<
            Seq<char>,
            Seq<u8>,
            Seq<Seq<char>>,
        >::Ended(
            Err("node 不在 PATH，无法生成服务定义（已尝试登录 shell 与常见安装路径）"@),
        ),
{
}

} // verus!
