//! Plugin-loader interface values: version numbers and the log line format.
use vstd::prelude::*;

verus! {

/// The packed form of a four-part version number, as the plugin loader reads it:
/// each part shifted into its byte position of a `u64`.
pub open spec fn packed_version(major: u64, minor: u64, minorer: u64, minorest: u64) -> u64 {
    (major << 24u64) | (minor << 16u64) | (minorer << 8u64) | minorest
}

/// Whether the four parts fit the layout without overlapping: the three lower
/// parts in one byte each, the major part in the remaining 40 bits.
pub open spec fn version_parts_fit(major: u64, minor: u64, minorer: u64, minorest: u64) -> bool {
    &&& major < 0x100_0000_0000
    &&& minor < 0x100
    &&& minorer < 0x100
    &&& minorest < 0x100
}

/// Packs a version number `major.minor.minorer.minorest` into one `u64`.
pub fn make_version(major: u64, minor: u64, minorer: u64, minorest: u64) -> (v: u64)
    ensures
        v == packed_version(major, minor, minorer, minorest),
        version_parts_fit(major, minor, minorer, minorest) ==> v == major * 0x100_0000 + minor
            * 0x1_0000 + minorer * 0x100 + minorest,
{
    proof {
        lemma_packed_version_is_sum(major, minor, minorer, minorest);
    }
    (major << 24u64) | (minor << 16u64) | (minorer << 8u64) | minorest
}

/// When the parts fit, packing is the positional sum of the parts.
pub proof fn lemma_packed_version_is_sum(major: u64, minor: u64, minorer: u64, minorest: u64)
    ensures
        version_parts_fit(major, minor, minorer, minorest) ==> packed_version(
            major,
            minor,
            minorer,
            minorest,
        ) == major * 0x100_0000 + minor * 0x1_0000 + minorer * 0x100 + minorest,
{
    if version_parts_fit(major, minor, minorer, minorest) {
        assert((major << 24u64) | (minor << 16u64) | (minorer << 8u64) | minorest == major
            * 0x100_0000 + minor * 0x1_0000 + minorer * 0x100 + minorest) by (bit_vector)
            requires
                major < 0x100_0000_0000u64,
                minor < 0x100u64,
                minorer < 0x100u64,
                minorest < 0x100u64,
        ;
    }
}

/// The interface version this plugin is written against (version 0.9.1.0).
pub const PLUGIN_API_VERSION: u64 = 0x0009_0100;

/// Shared ImGui state handed to per-frame callbacks; only ever seen behind a reference.
pub struct ImGuiShared;

/// The loader's input hooks; only ever seen behind a pointer.
pub struct InputHooks;

/// The loader's animation modding interface; only ever seen behind a pointer.
pub struct AnimationModdingInterface;

/// The plugin name used in log lines when the package name is unknown.
pub open spec fn shown_package_name(pkg_name: Option<Seq<char>>) -> Seq<char> {
    match pkg_name {
        Some(name) => name,
        None => "???"@,
    }
}

/// A log line as the plugin prints it and forwards it to the loader's console:
/// `[<package>][<level>] <message>`.
pub open spec fn log_line(pkg_name: Seq<char>, level: Seq<char>, message: Seq<char>) -> Seq<char> {
    "["@ + pkg_name + "]["@ + level + "] "@ + message
}

/// Builds the log line for a record of the given level and message.
pub fn format_log_line(pkg_name: Option<&str>, level: &str, message: &str) -> (line: String)
    ensures
        line@ == log_line(
            shown_package_name(
                match pkg_name {
                    Some(name) => Some(name@),
                    None => None,
                },
            ),
            level@,
            message@,
        ),
        line@ == "["@ + shown_package_name(
            match pkg_name {
                Some(name) => Some(name@),
                None => None,
            },
        ) + "]["@ + level@ + "] "@ + message@,
        line@.len() == 5 + shown_package_name(
            match pkg_name {
                Some(name) => Some(name@),
                None => None,
            },
        ).len() + level@.len() + message@.len(),
        line@.subrange(line@.len() - message@.len(), line@.len() as int) == message@,
{
    proof {
        reveal_strlit("[");
        reveal_strlit("][");
        reveal_strlit("] ");
    }
    let name = match pkg_name {
        Some(name) => name,
        None => "???",
    };
    let mut line = String::from_str("[");
    line.append(name);
    line.append("][");
    line.append(level);
    line.append("] ");
    line.append(message);
    proof {
        let prefix = "["@ + name@ + "]["@ + level@ + "] "@;
        assert(line@ == prefix + message@);
        assert(line@.subrange(prefix.len() as int, line@.len() as int) =~= message@);
    }
    line
}

/// A log line carries its whole message: it is five bracket and space
/// characters longer than the package name, level and message together, and it
/// ends with the message.
pub proof fn lemma_log_line_keeps_message(pkg_name: Seq<char>, level: Seq<char>, message: Seq<char>)
    ensures
        log_line(pkg_name, level, message).len() == 5 + pkg_name.len() + level.len()
            + message.len(),
        log_line(pkg_name, level, message).subrange(
            log_line(pkg_name, level, message).len() - message.len(),
            log_line(pkg_name, level, message).len() as int,
        ) == message,
        log_line(pkg_name, level, message).subrange(1, 1 + pkg_name.len() as int) == pkg_name,
        log_line(pkg_name, level, message).subrange(
            3 + pkg_name.len() as int,
            3 + pkg_name.len() as int + level.len() as int,
        ) == level,
{
    reveal_strlit("[");
    reveal_strlit("][");
    reveal_strlit("] ");
    let line = log_line(pkg_name, level, message);
    assert(line.subrange(line.len() - message.len(), line.len() as int) =~= message);
    assert(line.subrange(1, 1 + pkg_name.len() as int) =~= pkg_name);
    assert(line.subrange(3 + pkg_name.len() as int, 3 + pkg_name.len() as int + level.len() as int) =~= level);
}

/// Whether a text can be handed to the loader's console, which takes a
/// NUL-terminated string: only text without a NUL character can.
pub fn console_accepts(text: &str) -> (ok: bool)
    ensures
        ok == !text@.contains('\0'),
{
    let n = text.unicode_len();
    let mut i: usize = 0;
    while i < n
        invariant
            n == text@.len(),
            i <= n,
            forall|j: int| 0 <= j < i ==> text@[j] != '\0',
        decreases n - i,
    {
        if text.get_char(i) == '\0' {
            return false;
        }
        i = i + 1;
    }
    true
}

/// Version order: `a` comes before `b` when its first differing part is smaller.
pub open spec fn version_precedes(a: (u64, u64, u64, u64), b: (u64, u64, u64, u64)) -> bool {
    ||| a.0 < b.0
    ||| a.0 == b.0 && a.1 < b.1
    ||| a.0 == b.0 && a.1 == b.1 && a.2 < b.2
    ||| a.0 == b.0 && a.1 == b.1 && a.2 == b.2 && a.3 < b.3
}

/// When the parts fit, each part can be read back from the packed value.
pub proof fn lemma_packed_version_parts(major: u64, minor: u64, minorer: u64, minorest: u64)
    requires
        version_parts_fit(major, minor, minorer, minorest),
    ensures
        packed_version(major, minor, minorer, minorest) >> 24u64 == major,
        (packed_version(major, minor, minorer, minorest) >> 16u64) & 0xffu64 == minor,
        (packed_version(major, minor, minorer, minorest) >> 8u64) & 0xffu64 == minorer,
        packed_version(major, minor, minorer, minorest) & 0xffu64 == minorest,
{
    assert(((major << 24u64) | (minor << 16u64) | (minorer << 8u64) | minorest) >> 24u64 == major
        && (((major << 24u64) | (minor << 16u64) | (minorer << 8u64) | minorest) >> 16u64)
        & 0xffu64 == minor && (((major << 24u64) | (minor << 16u64) | (minorer << 8u64)
        | minorest) >> 8u64) & 0xffu64 == minorer && ((major << 24u64) | (minor << 16u64) | (
    minorer << 8u64) | minorest) & 0xffu64 == minorest) by (bit_vector)
        requires
            major < 0x100_0000_0000u64,
            minor < 0x100u64,
            minorer < 0x100u64,
            minorest < 0x100u64,
    ;
}

/// Packing is one-to-one on versions whose parts fit: two such versions pack to
/// the same number only when they are the same version.
pub proof fn lemma_packed_version_injective(a: (u64, u64, u64, u64), b: (u64, u64, u64, u64))
    requires
        version_parts_fit(a.0, a.1, a.2, a.3),
        version_parts_fit(b.0, b.1, b.2, b.3),
    ensures
        packed_version(a.0, a.1, a.2, a.3) == packed_version(b.0, b.1, b.2, b.3) <==> a == b,
{
    lemma_packed_version_parts(a.0, a.1, a.2, a.3);
    lemma_packed_version_parts(b.0, b.1, b.2, b.3);
}

/// Packing preserves version order: on versions whose parts fit, comparing the
/// packed numbers compares the versions part by part.
pub proof fn lemma_packed_version_order(a: (u64, u64, u64, u64), b: (u64, u64, u64, u64))
    requires
        version_parts_fit(a.0, a.1, a.2, a.3),
        version_parts_fit(b.0, b.1, b.2, b.3),
    ensures
        packed_version(a.0, a.1, a.2, a.3) < packed_version(b.0, b.1, b.2, b.3)
            <==> version_precedes(a, b),
{
    lemma_packed_version_is_sum(a.0, a.1, a.2, a.3);
    lemma_packed_version_is_sum(b.0, b.1, b.2, b.3);
}

} // verus!
