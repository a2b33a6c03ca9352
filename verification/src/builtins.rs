//! What the runtime offers as builtins: their names, capability paths,
//! default availability, type signatures, and the internal modules that wrap
//! them.
use vstd::prelude::*;
use crate::text::str_eq;

verus! {

/// Whether a builtin is visible to programs or only used by the runtime.
#[derive(Debug, Clone, Copy, PartialEq, Eq, Structural)]
pub enum BuiltinSurface {
    Public,
    RuntimeOnly,
}

/// The description of one builtin.
#[derive(Debug, Clone, Copy, PartialEq, Eq)]
pub struct BuiltinMeta {
    pub name: &'static str,
    pub capability_path: Option<&'static str>,
    pub in_core_default: bool,
    pub surface: BuiltinSurface,
}

/// The mathematical value of a builtin's description.
pub struct MetaView {
    pub name: Seq<char>,
    pub capability_path: Option<Seq<char>>,
    pub in_core_default: bool,
    pub surface: BuiltinSurface,
}

pub open spec fn opt_str_view(o: Option<&'static str>) -> Option<Seq<char>> {
    match o {
        Some(s) => Some(s@),
        None => None,
    }
}

impl View for BuiltinMeta {
    type V = MetaView;

    open spec fn view(&self) -> MetaView {
        MetaView {
            name: self.name@,
            capability_path: opt_str_view(self.capability_path),
            in_core_default: self.in_core_default,
            surface: self.surface,
        }
    }
}

pub open spec fn metas_view(ms: Seq<BuiltinMeta>) -> Seq<MetaView> {
    ms.map_values(|m: BuiltinMeta| m@)
}

pub open spec fn entry(
    name: Seq<char>,
    capability_path: Option<Seq<char>>,
    in_core_default: bool,
    surface: BuiltinSurface,
) -> MetaView {
    MetaView { name, capability_path, in_core_default, surface }
}

/// Every builtin, family by family.
pub open spec fn builtin_table() -> Seq<MetaView> {
    seq![
        entry("print"@, Some("capabilities.stdio.print"@), true, BuiltinSurface::Public),
        entry("println"@, Some("capabilities.stdio.println"@), true, BuiltinSurface::Public),
        entry("read_line"@, Some("capabilities.stdio.read_line"@), true, BuiltinSurface::Public),
        entry("read_stdin"@, Some("capabilities.stdio.read_stdin"@), true, BuiltinSurface::Public),
        entry("int_to_string"@, Some("capabilities.convert.int_to_string"@), true, BuiltinSurface::Public),
        entry("float_to_string"@, Some("capabilities.convert.float_to_string"@), true, BuiltinSurface::Public),
        entry("string_to_int"@, Some("capabilities.convert.string_to_int"@), true, BuiltinSurface::Public),
        entry("char_to_int"@, Some("capabilities.convert.char_to_int"@), true, BuiltinSurface::Public),
        entry("int_to_char"@, Some("capabilities.convert.int_to_char"@), true, BuiltinSurface::Public),
        entry("int_to_float"@, Some("capabilities.convert.int_to_float"@), true, BuiltinSurface::Public),
        entry("string_length"@, Some("capabilities.string.string_length"@), true, BuiltinSurface::Public),
        entry("substring"@, Some("capabilities.string.substring"@), true, BuiltinSurface::Public),
        entry("string_contains"@, Some("capabilities.string.string_contains"@), true, BuiltinSurface::Public),
        entry("trim"@, Some("capabilities.string.trim"@), true, BuiltinSurface::Public),
        entry("split"@, Some("capabilities.string.split"@), true, BuiltinSurface::Public),
        entry("string_replace"@, Some("capabilities.string.string_replace"@), true, BuiltinSurface::Public),
        entry("starts_with"@, Some("capabilities.string.starts_with"@), true, BuiltinSurface::Public),
        entry("ends_with"@, Some("capabilities.string.ends_with"@), true, BuiltinSurface::Public),
        entry("to_upper"@, Some("capabilities.string.to_upper"@), true, BuiltinSurface::Public),
        entry("to_lower"@, Some("capabilities.string.to_lower"@), true, BuiltinSurface::Public),
        entry("string_join"@, Some("capabilities.string.string_join"@), true, BuiltinSurface::Public),
        entry("regex_match"@, Some("capabilities.regex.regex_match"@), true, BuiltinSurface::Public),
        entry("regex_replace"@, Some("capabilities.regex.regex_replace"@), true, BuiltinSurface::Public),
        entry("json_parse"@, Some("capabilities.json.json_parse"@), true, BuiltinSurface::Public),
        entry("json_to_string"@, Some("capabilities.json.json_to_string"@), true, BuiltinSurface::Public),
        entry("json_get"@, Some("capabilities.json.json_get"@), true, BuiltinSurface::Public),
        entry("json_keys"@, Some("capabilities.json.json_keys"@), true, BuiltinSurface::Public),
        entry("json_length"@, Some("capabilities.json.json_length"@), true, BuiltinSurface::Public),
        entry("sqrt"@, Some("capabilities.math.sqrt"@), true, BuiltinSurface::Public),
        entry("abs_int"@, Some("capabilities.math.abs_int"@), true, BuiltinSurface::Public),
        entry("abs_float"@, Some("capabilities.math.abs_float"@), true, BuiltinSurface::Public),
        entry("floor"@, Some("capabilities.math.floor"@), true, BuiltinSurface::Public),
        entry("ceil"@, Some("capabilities.math.ceil"@), true, BuiltinSurface::Public),
        entry("bytes_length"@, Some("capabilities.bytes.bytes_length"@), true, BuiltinSurface::Public),
        entry("bytes_to_string"@, Some("capabilities.bytes.bytes_to_string"@), true, BuiltinSurface::Public),
        entry("string_to_bytes"@, Some("capabilities.bytes.string_to_bytes"@), true, BuiltinSurface::Public),
        entry("bytes_get"@, Some("capabilities.bytes.bytes_get"@), true, BuiltinSurface::Public),
        entry("bytes_slice"@, Some("capabilities.bytes.bytes_slice"@), true, BuiltinSurface::Public),
        entry("blake3"@, Some("capabilities.hash.blake3"@), true, BuiltinSurface::Public),
        entry("random_bytes"@, Some("capabilities.random.random_bytes"@), true, BuiltinSurface::Public),
        entry("rng_seed"@, Some("capabilities.random.rng_seed"@), true, BuiltinSurface::Public),
        entry("rng_bytes"@, Some("capabilities.random.rng_bytes"@), true, BuiltinSurface::Public),
        entry("rng_int"@, Some("capabilities.random.rng_int"@), true, BuiltinSurface::Public),
        entry("getenv"@, Some("capabilities.env.getenv"@), true, BuiltinSurface::Public),
        entry("epoch"@, Some("capabilities.time.epoch"@), true, BuiltinSurface::Public),
        entry("epoch_ms"@, Some("capabilities.time.epoch_ms"@), true, BuiltinSurface::Public),
        entry("monotonic_ms"@, Some("capabilities.time.monotonic_ms"@), true, BuiltinSurface::Public),
        entry("sleep"@, Some("capabilities.time.sleep"@), true, BuiltinSurface::Public),
        entry("date_utc_tz"@, None, true, BuiltinSurface::RuntimeOnly),
        entry("date_local_tz"@, None, true, BuiltinSurface::RuntimeOnly),
        entry("date_timezone_of"@, None, true, BuiltinSurface::RuntimeOnly),
        entry("date_fixed_offset"@, None, true, BuiltinSurface::RuntimeOnly),
        entry("date_utc_now"@, None, true, BuiltinSurface::RuntimeOnly),
        entry("date_now_in"@, None, true, BuiltinSurface::RuntimeOnly),
        entry("date_from_instant"@, None, true, BuiltinSurface::RuntimeOnly),
        entry("date_to_epoch_ms"@, None, true, BuiltinSurface::RuntimeOnly),
        entry("date_to_timezone"@, None, true, BuiltinSurface::RuntimeOnly),
        entry("date_in_timezone"@, None, true, BuiltinSurface::RuntimeOnly),
        entry("date_year"@, None, true, BuiltinSurface::RuntimeOnly),
        entry("date_month"@, None, true, BuiltinSurface::RuntimeOnly),
        entry("date_day"@, None, true, BuiltinSurface::RuntimeOnly),
        entry("date_hour"@, None, true, BuiltinSurface::RuntimeOnly),
        entry("date_minute"@, None, true, BuiltinSurface::RuntimeOnly),
        entry("date_second"@, None, true, BuiltinSurface::RuntimeOnly),
        entry("date_millisecond"@, None, true, BuiltinSurface::RuntimeOnly),
        entry("date_weekday"@, None, true, BuiltinSurface::RuntimeOnly),
        entry("date_to_rfc3339"@, None, true, BuiltinSurface::RuntimeOnly),
        entry("date_to_rfc2822"@, None, true, BuiltinSurface::RuntimeOnly),
        entry("date_format"@, None, true, BuiltinSurface::RuntimeOnly),
        entry("date_parse_rfc3339"@, None, true, BuiltinSurface::RuntimeOnly),
        entry("date_parse_rfc9557"@, None, true, BuiltinSurface::RuntimeOnly),
        entry("spawn"@, Some("capabilities.process.spawn"@), true, BuiltinSurface::Public),
        entry("await_process"@, Some("capabilities.process.await_process"@), true, BuiltinSurface::Public),
        entry("path_join"@, Some("capabilities.path.path_join"@), true, BuiltinSurface::Public),
        entry("read_file"@, Some("capabilities.filesystem.read_file"@), false, BuiltinSurface::Public),
        entry("read_file_bytes"@, Some("capabilities.filesystem.read_file_bytes"@), false, BuiltinSurface::Public),
        entry("write_file"@, Some("capabilities.filesystem.write_file"@), false, BuiltinSurface::Public),
        entry("file_exists"@, Some("capabilities.filesystem.file_exists"@), false, BuiltinSurface::Public),
        entry("list_dir"@, Some("capabilities.filesystem.list_dir"@), false, BuiltinSurface::Public),
        entry("remove_file"@, Some("capabilities.filesystem.remove_file"@), false, BuiltinSurface::Public),
        entry("create_dir"@, Some("capabilities.filesystem.create_dir"@), false, BuiltinSurface::Public),
        entry("is_dir"@, Some("capabilities.filesystem.is_dir"@), false, BuiltinSurface::Public),
        entry("is_file"@, Some("capabilities.filesystem.is_file"@), false, BuiltinSurface::Public),
        entry("read_file_tagged"@, Some("capabilities.filesystem.read_file_tagged"@), false, BuiltinSurface::Public),
        entry("edit_file_tagged"@, Some("capabilities.filesystem.edit_file_tagged"@), false, BuiltinSurface::Public),
        entry("glob"@, Some("capabilities.filesystem.glob"@), false, BuiltinSurface::Public),
        entry("walk_dir"@, Some("capabilities.filesystem.walk_dir"@), false, BuiltinSurface::Public),
        entry("http_get"@, Some("capabilities.http.http_get"@), false, BuiltinSurface::Public),
        entry("http"@, Some("capabilities.http.http"@), false, BuiltinSurface::Public),
        entry("http_json"@, Some("capabilities.http.http_json"@), false, BuiltinSurface::Public),
        entry("http_msgpack"@, Some("capabilities.http.http_msgpack"@), false, BuiltinSurface::Public),
        entry("http_bytes"@, Some("capabilities.http.http_bytes"@), false, BuiltinSurface::Public),
        entry("exec"@, Some("capabilities.exec.exec"@), false, BuiltinSurface::Public),
        entry("exit"@, Some("capabilities.system.exit"@), false, BuiltinSurface::Public),
        entry("panic"@, Some("capabilities.testing.panic"@), true, BuiltinSurface::Public),
        entry("assert"@, Some("capabilities.testing.assert"@), true, BuiltinSurface::Public),
        entry("assert_eq"@, Some("capabilities.testing.assert_eq"@), true, BuiltinSurface::Public),
    ]
}

/// All builtins, family by family.
pub fn builtins() -> (r: Vec<BuiltinMeta>)
    ensures
        metas_view(r@) == builtin_table(),
{
    let v = vec![
        BuiltinMeta { name: "print", capability_path: Some("capabilities.stdio.print"), in_core_default: true, surface: BuiltinSurface::Public },
        BuiltinMeta { name: "println", capability_path: Some("capabilities.stdio.println"), in_core_default: true, surface: BuiltinSurface::Public },
        BuiltinMeta { name: "read_line", capability_path: Some("capabilities.stdio.read_line"), in_core_default: true, surface: BuiltinSurface::Public },
        BuiltinMeta { name: "read_stdin", capability_path: Some("capabilities.stdio.read_stdin"), in_core_default: true, surface: BuiltinSurface::Public },
        BuiltinMeta { name: "int_to_string", capability_path: Some("capabilities.convert.int_to_string"), in_core_default: true, surface: BuiltinSurface::Public },
        BuiltinMeta { name: "float_to_string", capability_path: Some("capabilities.convert.float_to_string"), in_core_default: true, surface: BuiltinSurface::Public },
        BuiltinMeta { name: "string_to_int", capability_path: Some("capabilities.convert.string_to_int"), in_core_default: true, surface: BuiltinSurface::Public },
        BuiltinMeta { name: "char_to_int", capability_path: Some("capabilities.convert.char_to_int"), in_core_default: true, surface: BuiltinSurface::Public },
        BuiltinMeta { name: "int_to_char", capability_path: Some("capabilities.convert.int_to_char"), in_core_default: true, surface: BuiltinSurface::Public },
        BuiltinMeta { name: "int_to_float", capability_path: Some("capabilities.convert.int_to_float"), in_core_default: true, surface: BuiltinSurface::Public },
        BuiltinMeta { name: "string_length", capability_path: Some("capabilities.string.string_length"), in_core_default: true, surface: BuiltinSurface::Public },
        BuiltinMeta { name: "substring", capability_path: Some("capabilities.string.substring"), in_core_default: true, surface: BuiltinSurface::Public },
        BuiltinMeta { name: "string_contains", capability_path: Some("capabilities.string.string_contains"), in_core_default: true, surface: BuiltinSurface::Public },
        BuiltinMeta { name: "trim", capability_path: Some("capabilities.string.trim"), in_core_default: true, surface: BuiltinSurface::Public },
        BuiltinMeta { name: "split", capability_path: Some("capabilities.string.split"), in_core_default: true, surface: BuiltinSurface::Public },
        BuiltinMeta { name: "string_replace", capability_path: Some("capabilities.string.string_replace"), in_core_default: true, surface: BuiltinSurface::Public },
        BuiltinMeta { name: "starts_with", capability_path: Some("capabilities.string.starts_with"), in_core_default: true, surface: BuiltinSurface::Public },
        BuiltinMeta { name: "ends_with", capability_path: Some("capabilities.string.ends_with"), in_core_default: true, surface: BuiltinSurface::Public },
        BuiltinMeta { name: "to_upper", capability_path: Some("capabilities.string.to_upper"), in_core_default: true, surface: BuiltinSurface::Public },
        BuiltinMeta { name: "to_lower", capability_path: Some("capabilities.string.to_lower"), in_core_default: true, surface: BuiltinSurface::Public },
        BuiltinMeta { name: "string_join", capability_path: Some("capabilities.string.string_join"), in_core_default: true, surface: BuiltinSurface::Public },
        BuiltinMeta { name: "regex_match", capability_path: Some("capabilities.regex.regex_match"), in_core_default: true, surface: BuiltinSurface::Public },
        BuiltinMeta { name: "regex_replace", capability_path: Some("capabilities.regex.regex_replace"), in_core_default: true, surface: BuiltinSurface::Public },
        BuiltinMeta { name: "json_parse", capability_path: Some("capabilities.json.json_parse"), in_core_default: true, surface: BuiltinSurface::Public },
        BuiltinMeta { name: "json_to_string", capability_path: Some("capabilities.json.json_to_string"), in_core_default: true, surface: BuiltinSurface::Public },
        BuiltinMeta { name: "json_get", capability_path: Some("capabilities.json.json_get"), in_core_default: true, surface: BuiltinSurface::Public },
        BuiltinMeta { name: "json_keys", capability_path: Some("capabilities.json.json_keys"), in_core_default: true, surface: BuiltinSurface::Public },
        BuiltinMeta { name: "json_length", capability_path: Some("capabilities.json.json_length"), in_core_default: true, surface: BuiltinSurface::Public },
        BuiltinMeta { name: "sqrt", capability_path: Some("capabilities.math.sqrt"), in_core_default: true, surface: BuiltinSurface::Public },
        BuiltinMeta { name: "abs_int", capability_path: Some("capabilities.math.abs_int"), in_core_default: true, surface: BuiltinSurface::Public },
        BuiltinMeta { name: "abs_float", capability_path: Some("capabilities.math.abs_float"), in_core_default: true, surface: BuiltinSurface::Public },
        BuiltinMeta { name: "floor", capability_path: Some("capabilities.math.floor"), in_core_default: true, surface: BuiltinSurface::Public },
        BuiltinMeta { name: "ceil", capability_path: Some("capabilities.math.ceil"), in_core_default: true, surface: BuiltinSurface::Public },
        BuiltinMeta { name: "bytes_length", capability_path: Some("capabilities.bytes.bytes_length"), in_core_default: true, surface: BuiltinSurface::Public },
        BuiltinMeta { name: "bytes_to_string", capability_path: Some("capabilities.bytes.bytes_to_string"), in_core_default: true, surface: BuiltinSurface::Public },
        BuiltinMeta { name: "string_to_bytes", capability_path: Some("capabilities.bytes.string_to_bytes"), in_core_default: true, surface: BuiltinSurface::Public },
        BuiltinMeta { name: "bytes_get", capability_path: Some("capabilities.bytes.bytes_get"), in_core_default: true, surface: BuiltinSurface::Public },
        BuiltinMeta { name: "bytes_slice", capability_path: Some("capabilities.bytes.bytes_slice"), in_core_default: true, surface: BuiltinSurface::Public },
        BuiltinMeta { name: "blake3", capability_path: Some("capabilities.hash.blake3"), in_core_default: true, surface: BuiltinSurface::Public },
        BuiltinMeta { name: "random_bytes", capability_path: Some("capabilities.random.random_bytes"), in_core_default: true, surface: BuiltinSurface::Public },
        BuiltinMeta { name: "rng_seed", capability_path: Some("capabilities.random.rng_seed"), in_core_default: true, surface: BuiltinSurface::Public },
        BuiltinMeta { name: "rng_bytes", capability_path: Some("capabilities.random.rng_bytes"), in_core_default: true, surface: BuiltinSurface::Public },
        BuiltinMeta { name: "rng_int", capability_path: Some("capabilities.random.rng_int"), in_core_default: true, surface: BuiltinSurface::Public },
        BuiltinMeta { name: "getenv", capability_path: Some("capabilities.env.getenv"), in_core_default: true, surface: BuiltinSurface::Public },
        BuiltinMeta { name: "epoch", capability_path: Some("capabilities.time.epoch"), in_core_default: true, surface: BuiltinSurface::Public },
        BuiltinMeta { name: "epoch_ms", capability_path: Some("capabilities.time.epoch_ms"), in_core_default: true, surface: BuiltinSurface::Public },
        BuiltinMeta { name: "monotonic_ms", capability_path: Some("capabilities.time.monotonic_ms"), in_core_default: true, surface: BuiltinSurface::Public },
        BuiltinMeta { name: "sleep", capability_path: Some("capabilities.time.sleep"), in_core_default: true, surface: BuiltinSurface::Public },
        BuiltinMeta { name: "date_utc_tz", capability_path: None, in_core_default: true, surface: BuiltinSurface::RuntimeOnly },
        BuiltinMeta { name: "date_local_tz", capability_path: None, in_core_default: true, surface: BuiltinSurface::RuntimeOnly },
        BuiltinMeta { name: "date_timezone_of", capability_path: None, in_core_default: true, surface: BuiltinSurface::RuntimeOnly },
        BuiltinMeta { name: "date_fixed_offset", capability_path: None, in_core_default: true, surface: BuiltinSurface::RuntimeOnly },
        BuiltinMeta { name: "date_utc_now", capability_path: None, in_core_default: true, surface: BuiltinSurface::RuntimeOnly },
        BuiltinMeta { name: "date_now_in", capability_path: None, in_core_default: true, surface: BuiltinSurface::RuntimeOnly },
        BuiltinMeta { name: "date_from_instant", capability_path: None, in_core_default: true, surface: BuiltinSurface::RuntimeOnly },
        BuiltinMeta { name: "date_to_epoch_ms", capability_path: None, in_core_default: true, surface: BuiltinSurface::RuntimeOnly },
        BuiltinMeta { name: "date_to_timezone", capability_path: None, in_core_default: true, surface: BuiltinSurface::RuntimeOnly },
        BuiltinMeta { name: "date_in_timezone", capability_path: None, in_core_default: true, surface: BuiltinSurface::RuntimeOnly },
        BuiltinMeta { name: "date_year", capability_path: None, in_core_default: true, surface: BuiltinSurface::RuntimeOnly },
        BuiltinMeta { name: "date_month", capability_path: None, in_core_default: true, surface: BuiltinSurface::RuntimeOnly },
        BuiltinMeta { name: "date_day", capability_path: None, in_core_default: true, surface: BuiltinSurface::RuntimeOnly },
        BuiltinMeta { name: "date_hour", capability_path: None, in_core_default: true, surface: BuiltinSurface::RuntimeOnly },
        BuiltinMeta { name: "date_minute", capability_path: None, in_core_default: true, surface: BuiltinSurface::RuntimeOnly },
        BuiltinMeta { name: "date_second", capability_path: None, in_core_default: true, surface: BuiltinSurface::RuntimeOnly },
        BuiltinMeta { name: "date_millisecond", capability_path: None, in_core_default: true, surface: BuiltinSurface::RuntimeOnly },
        BuiltinMeta { name: "date_weekday", capability_path: None, in_core_default: true, surface: BuiltinSurface::RuntimeOnly },
        BuiltinMeta { name: "date_to_rfc3339", capability_path: None, in_core_default: true, surface: BuiltinSurface::RuntimeOnly },
        BuiltinMeta { name: "date_to_rfc2822", capability_path: None, in_core_default: true, surface: BuiltinSurface::RuntimeOnly },
        BuiltinMeta { name: "date_format", capability_path: None, in_core_default: true, surface: BuiltinSurface::RuntimeOnly },
        BuiltinMeta { name: "date_parse_rfc3339", capability_path: None, in_core_default: true, surface: BuiltinSurface::RuntimeOnly },
        BuiltinMeta { name: "date_parse_rfc9557", capability_path: None, in_core_default: true, surface: BuiltinSurface::RuntimeOnly },
        BuiltinMeta { name: "spawn", capability_path: Some("capabilities.process.spawn"), in_core_default: true, surface: BuiltinSurface::Public },
        BuiltinMeta { name: "await_process", capability_path: Some("capabilities.process.await_process"), in_core_default: true, surface: BuiltinSurface::Public },
        BuiltinMeta { name: "path_join", capability_path: Some("capabilities.path.path_join"), in_core_default: true, surface: BuiltinSurface::Public },
        BuiltinMeta { name: "read_file", capability_path: Some("capabilities.filesystem.read_file"), in_core_default: false, surface: BuiltinSurface::Public },
        BuiltinMeta { name: "read_file_bytes", capability_path: Some("capabilities.filesystem.read_file_bytes"), in_core_default: false, surface: BuiltinSurface::Public },
        BuiltinMeta { name: "write_file", capability_path: Some("capabilities.filesystem.write_file"), in_core_default: false, surface: BuiltinSurface::Public },
        BuiltinMeta { name: "file_exists", capability_path: Some("capabilities.filesystem.file_exists"), in_core_default: false, surface: BuiltinSurface::Public },
        BuiltinMeta { name: "list_dir", capability_path: Some("capabilities.filesystem.list_dir"), in_core_default: false, surface: BuiltinSurface::Public },
        BuiltinMeta { name: "remove_file", capability_path: Some("capabilities.filesystem.remove_file"), in_core_default: false, surface: BuiltinSurface::Public },
        BuiltinMeta { name: "create_dir", capability_path: Some("capabilities.filesystem.create_dir"), in_core_default: false, surface: BuiltinSurface::Public },
        BuiltinMeta { name: "is_dir", capability_path: Some("capabilities.filesystem.is_dir"), in_core_default: false, surface: BuiltinSurface::Public },
        BuiltinMeta { name: "is_file", capability_path: Some("capabilities.filesystem.is_file"), in_core_default: false, surface: BuiltinSurface::Public },
        BuiltinMeta { name: "read_file_tagged", capability_path: Some("capabilities.filesystem.read_file_tagged"), in_core_default: false, surface: BuiltinSurface::Public },
        BuiltinMeta { name: "edit_file_tagged", capability_path: Some("capabilities.filesystem.edit_file_tagged"), in_core_default: false, surface: BuiltinSurface::Public },
        BuiltinMeta { name: "glob", capability_path: Some("capabilities.filesystem.glob"), in_core_default: false, surface: BuiltinSurface::Public },
        BuiltinMeta { name: "walk_dir", capability_path: Some("capabilities.filesystem.walk_dir"), in_core_default: false, surface: BuiltinSurface::Public },
        BuiltinMeta { name: "http_get", capability_path: Some("capabilities.http.http_get"), in_core_default: false, surface: BuiltinSurface::Public },
        BuiltinMeta { name: "http", capability_path: Some("capabilities.http.http"), in_core_default: false, surface: BuiltinSurface::Public },
        BuiltinMeta { name: "http_json", capability_path: Some("capabilities.http.http_json"), in_core_default: false, surface: BuiltinSurface::Public },
        BuiltinMeta { name: "http_msgpack", capability_path: Some("capabilities.http.http_msgpack"), in_core_default: false, surface: BuiltinSurface::Public },
        BuiltinMeta { name: "http_bytes", capability_path: Some("capabilities.http.http_bytes"), in_core_default: false, surface: BuiltinSurface::Public },
        BuiltinMeta { name: "exec", capability_path: Some("capabilities.exec.exec"), in_core_default: false, surface: BuiltinSurface::Public },
        BuiltinMeta { name: "exit", capability_path: Some("capabilities.system.exit"), in_core_default: false, surface: BuiltinSurface::Public },
        BuiltinMeta { name: "panic", capability_path: Some("capabilities.testing.panic"), in_core_default: true, surface: BuiltinSurface::Public },
        BuiltinMeta { name: "assert", capability_path: Some("capabilities.testing.assert"), in_core_default: true, surface: BuiltinSurface::Public },
        BuiltinMeta { name: "assert_eq", capability_path: Some("capabilities.testing.assert_eq"), in_core_default: true, surface: BuiltinSurface::Public },
    ];
    assert(metas_view(v@) =~= builtin_table());
    v
}

/// The type signature of a builtin: the quantified type variables (without
/// their leading quote) and the type written in the language's syntax.
#[derive(Debug, Clone, PartialEq, Eq)]
pub struct BuiltinTypeSignature {
    pub vars: Vec<&'static str>,
    pub ty: &'static str,
}

/// The mathematical value of a type signature.
pub struct SignatureView {
    pub vars: Seq<Seq<char>>,
    pub ty: Seq<char>,
}

impl View for BuiltinTypeSignature {
    type V = SignatureView;

    open spec fn view(&self) -> SignatureView {
        SignatureView { vars: self.vars@.map_values(|v: &'static str| v@), ty: self.ty@ }
    }
}

pub open spec fn mono_sig(ty: Seq<char>) -> SignatureView {
    SignatureView { vars: Seq::empty(), ty }
}

pub open spec fn poly_sig(ty: Seq<char>) -> SignatureView {
    SignatureView { vars: seq!["a"@], ty }
}

/// The type signature of the builtin called `name`, if it has one.
pub open spec fn signature_of(name: Seq<char>) -> Option<SignatureView> {
    if name == "print"@ || name == "println"@ {
        Some(mono_sig("string -> unit"@))
    } else if name == "read_line"@ || name == "read_stdin"@ {
        Some(mono_sig("unit -> string"@))
    } else if name == "int_to_string"@ {
        Some(mono_sig("int -> string"@))
    } else if name == "float_to_string"@ {
        Some(mono_sig("float -> string"@))
    } else if name == "string_to_int"@ {
        Some(mono_sig("string -> int"@))
    } else if name == "char_to_int"@ {
        Some(mono_sig("char -> int"@))
    } else if name == "int_to_char"@ {
        Some(mono_sig("int -> char"@))
    } else if name == "int_to_float"@ {
        Some(mono_sig("int -> float"@))
    } else if name == "word_to_int"@ {
        Some(mono_sig("word -> int"@))
    } else if name == "int_to_word"@ {
        Some(mono_sig("int -> word"@))
    } else if name == "word_to_string"@ {
        Some(mono_sig("word -> string"@))
    } else if name == "string_to_word"@ {
        Some(mono_sig("string -> word"@))
    } else if name == "numeric_int32_min_value"@ || name == "numeric_int32_max_value"@ {
        Some(mono_sig("unit -> int"@))
    } else if name == "numeric_int32_of_int"@ || name == "numeric_int32_to_int"@ || name == "numeric_int32_neg"@ {
        Some(mono_sig("int -> int"@))
    } else if name == "numeric_int32_checked_of_int"@ {
        Some(mono_sig("int -> bool * int"@))
    } else if name == "numeric_int32_add"@ || name == "numeric_int32_wrapping_add"@ || name == "numeric_int32_saturating_add"@ || name == "numeric_int32_sub"@ || name == "numeric_int32_mul"@ || name == "numeric_int32_div"@ || name == "numeric_int32_rem"@ {
        Some(mono_sig("int * int -> int"@))
    } else if name == "numeric_int32_checked_add"@ {
        Some(mono_sig("int * int -> bool * int"@))
    } else if name == "numeric_word32_min_value"@ || name == "numeric_word32_max_value"@ {
        Some(mono_sig("unit -> word"@))
    } else if name == "numeric_word32_of_word"@ || name == "numeric_word32_to_word"@ {
        Some(mono_sig("word -> word"@))
    } else if name == "numeric_word32_checked_of_word"@ {
        Some(mono_sig("word -> bool * word"@))
    } else if name == "numeric_word32_of_int"@ {
        Some(mono_sig("int -> word"@))
    } else if name == "numeric_word32_checked_of_int"@ {
        Some(mono_sig("int -> bool * word"@))
    } else if name == "numeric_word32_to_int"@ {
        Some(mono_sig("word -> int"@))
    } else if name == "numeric_word32_add"@ || name == "numeric_word32_saturating_add"@ || name == "numeric_word32_sub"@ || name == "numeric_word32_mul"@ || name == "numeric_word32_div"@ || name == "numeric_word32_rem"@ {
        Some(mono_sig("word * word -> word"@))
    } else if name == "numeric_word32_checked_add"@ {
        Some(mono_sig("word * word -> bool * word"@))
    } else if name == "numeric_float32_of_float"@ || name == "numeric_float32_to_float"@ || name == "numeric_float32_neg"@ {
        Some(mono_sig("float -> float"@))
    } else if name == "numeric_float32_add"@ || name == "numeric_float32_sub"@ || name == "numeric_float32_mul"@ || name == "numeric_float32_div"@ {
        Some(mono_sig("float * float -> float"@))
    } else if name == "string_length"@ {
        Some(mono_sig("string -> int"@))
    } else if name == "substring"@ {
        Some(mono_sig("string * int * int -> string"@))
    } else if name == "string_contains"@ || name == "starts_with"@ || name == "ends_with"@ {
        Some(mono_sig("string * string -> bool"@))
    } else if name == "trim"@ || name == "to_upper"@ || name == "to_lower"@ {
        Some(mono_sig("string -> string"@))
    } else if name == "split"@ {
        Some(mono_sig("string * string -> string list"@))
    } else if name == "string_replace"@ {
        Some(mono_sig("string * string * string -> string"@))
    } else if name == "string_join"@ {
        Some(mono_sig("string list * string -> string"@))
    } else if name == "sqrt"@ || name == "abs_float"@ {
        Some(mono_sig("float -> float"@))
    } else if name == "abs_int"@ {
        Some(mono_sig("int -> int"@))
    } else if name == "floor"@ || name == "ceil"@ {
        Some(mono_sig("float -> int"@))
    } else if name == "read_file"@ {
        Some(mono_sig("string -> string"@))
    } else if name == "read_file_bytes"@ {
        Some(mono_sig("string -> bytes"@))
    } else if name == "write_file"@ {
        Some(mono_sig("string * string -> unit"@))
    } else if name == "file_exists"@ || name == "is_dir"@ || name == "is_file"@ {
        Some(mono_sig("string -> bool"@))
    } else if name == "list_dir"@ || name == "glob"@ || name == "walk_dir"@ {
        Some(mono_sig("string -> string list"@))
    } else if name == "remove_file"@ || name == "create_dir"@ {
        Some(mono_sig("string -> unit"@))
    } else if name == "read_file_tagged"@ {
        Some(mono_sig("string * int * int -> string"@))
    } else if name == "edit_file_tagged"@ {
        Some(mono_sig("string * string -> string"@))
    } else if name == "path_join"@ {
        Some(mono_sig("string * string -> string"@))
    } else if name == "http_get"@ {
        Some(mono_sig("string -> int * (string * string) list * string"@))
    } else if name == "http"@ {
        Some(mono_sig("string * string * (string * string) list * string -> int * (string * string) list * string"@))
    } else if name == "http_bytes"@ {
        Some(mono_sig("string * string * (string * string) list * string -> int * (string * string) list * bytes"@))
    } else if name == "http_json"@ || name == "http_msgpack"@ {
        Some(poly_sig("string * string * (string * string) list * string -> int * (string * string) list * 'a"@))
    } else if name == "bytes_length"@ {
        Some(mono_sig("bytes -> int"@))
    } else if name == "bytes_to_string"@ {
        Some(mono_sig("bytes -> string"@))
    } else if name == "string_to_bytes"@ {
        Some(mono_sig("string -> bytes"@))
    } else if name == "bytes_get"@ {
        Some(mono_sig("bytes * int -> int"@))
    } else if name == "bytes_slice"@ {
        Some(mono_sig("bytes * int * int -> bytes"@))
    } else if name == "blake3"@ {
        Some(mono_sig("bytes -> string"@))
    } else if name == "random_bytes"@ {
        Some(mono_sig("int -> bytes"@))
    } else if name == "rng_seed"@ {
        Some(mono_sig("bytes -> rng"@))
    } else if name == "rng_bytes"@ {
        Some(mono_sig("rng * int -> bytes * rng"@))
    } else if name == "rng_int"@ {
        Some(mono_sig("rng * int -> int * rng"@))
    } else if name == "regex_match"@ {
        Some(mono_sig("string * string -> bool"@))
    } else if name == "regex_replace"@ {
        Some(mono_sig("string * string * string -> string"@))
    } else if name == "json_get"@ {
        Some(mono_sig("string * string -> string"@))
    } else if name == "json_keys"@ {
        Some(mono_sig("string -> string list"@))
    } else if name == "json_length"@ {
        Some(mono_sig("string -> int"@))
    } else if name == "json_parse"@ {
        Some(poly_sig("string -> 'a"@))
    } else if name == "json_to_string"@ {
        Some(poly_sig("'a -> string"@))
    } else if name == "getenv"@ {
        Some(mono_sig("string -> string"@))
    } else if name == "epoch"@ || name == "epoch_ms"@ || name == "monotonic_ms"@ {
        Some(mono_sig("unit -> int"@))
    } else if name == "sleep"@ {
        Some(mono_sig("int -> unit"@))
    } else if name == "date_utc_tz"@ || name == "date_utc_now"@ {
        Some(mono_sig("unit -> string"@))
    } else if name == "date_local_tz"@ {
        Some(mono_sig("unit -> bool * string"@))
    } else if name == "date_timezone_of"@ {
        Some(mono_sig("string -> bool * string"@))
    } else if name == "date_fixed_offset"@ {
        Some(mono_sig("int -> string"@))
    } else if name == "date_now_in"@ {
        Some(mono_sig("string -> string"@))
    } else if name == "date_from_instant"@ {
        Some(mono_sig("int * string -> string"@))
    } else if name == "date_to_epoch_ms"@ {
        Some(mono_sig("string -> int"@))
    } else if name == "date_to_timezone"@ || name == "date_in_timezone"@ {
        Some(mono_sig("string * string -> string"@))
    } else if name == "date_year"@ || name == "date_month"@ || name == "date_day"@ || name == "date_hour"@ || name == "date_minute"@ || name == "date_second"@ || name == "date_millisecond"@ || name == "date_weekday"@ {
        Some(mono_sig("string -> int"@))
    } else if name == "date_to_rfc3339"@ || name == "date_to_rfc2822"@ {
        Some(mono_sig("string -> string"@))
    } else if name == "date_format"@ {
        Some(mono_sig("string * string -> string"@))
    } else if name == "date_parse_rfc3339"@ || name == "date_parse_rfc9557"@ {
        Some(mono_sig("string -> bool * string"@))
    } else if name == "spawn"@ {
        Some(poly_sig("(unit -> 'a) -> pid"@))
    } else if name == "await_process"@ || name == "await_process_result"@ {
        Some(poly_sig("pid -> 'a"@))
    } else if name == "cancel"@ {
        Some(mono_sig("pid -> unit"@))
    } else if name == "wait_any"@ {
        Some(mono_sig("pid list -> pid"@))
    } else if name == "exec"@ {
        Some(mono_sig("string * string list -> int * string * string"@))
    } else if name == "exit"@ {
        Some(mono_sig("int -> unit"@))
    } else if name == "assert"@ {
        Some(mono_sig("bool * string -> unit"@))
    } else if name == "panic"@ {
        Some(poly_sig("string -> 'a"@))
    } else if name == "assert_eq"@ {
        Some(poly_sig("'a * 'a * string -> unit"@))
    } else {
        None
    }
}

fn mono(ty: &'static str) -> (r: Option<BuiltinTypeSignature>)
    ensures
        r matches Some(s) && s@ == mono_sig(ty@),
{
    let r = BuiltinTypeSignature { vars: Vec::new(), ty };
    assert(r@.vars =~= Seq::<Seq<char>>::empty());
    Some(r)
}

fn poly(ty: &'static str) -> (r: Option<BuiltinTypeSignature>)
    ensures
        r matches Some(s) && s@ == poly_sig(ty@),
{
    let r = BuiltinTypeSignature { vars: vec!["a"], ty };
    assert(r@.vars =~= seq!["a"@]);
    Some(r)
}

/// The type signature of the builtin called `name`, if it has one.
pub fn builtin_type_signature(name: &str) -> (r: Option<BuiltinTypeSignature>)
    ensures
        match (r, signature_of(name@)) {
            (Some(x), Some(y)) => x@ == y,
            (None, None) => true,
            _ => false,
        },
{
    if str_eq(name, "print") || str_eq(name, "println") {
        return mono("string -> unit");
    }
    if str_eq(name, "read_line") || str_eq(name, "read_stdin") {
        return mono("unit -> string");
    }
    if str_eq(name, "int_to_string") {
        return mono("int -> string");
    }
    if str_eq(name, "float_to_string") {
        return mono("float -> string");
    }
    if str_eq(name, "string_to_int") {
        return mono("string -> int");
    }
    if str_eq(name, "char_to_int") {
        return mono("char -> int");
    }
    if str_eq(name, "int_to_char") {
        return mono("int -> char");
    }
    if str_eq(name, "int_to_float") {
        return mono("int -> float");
    }
    if str_eq(name, "word_to_int") {
        return mono("word -> int");
    }
    if str_eq(name, "int_to_word") {
        return mono("int -> word");
    }
    if str_eq(name, "word_to_string") {
        return mono("word -> string");
    }
    if str_eq(name, "string_to_word") {
        return mono("string -> word");
    }
    if str_eq(name, "numeric_int32_min_value") || str_eq(name, "numeric_int32_max_value") {
        return mono("unit -> int");
    }
    if str_eq(name, "numeric_int32_of_int") || str_eq(name, "numeric_int32_to_int") || str_eq(name, "numeric_int32_neg") {
        return mono("int -> int");
    }
    if str_eq(name, "numeric_int32_checked_of_int") {
        return mono("int -> bool * int");
    }
    if str_eq(name, "numeric_int32_add") || str_eq(name, "numeric_int32_wrapping_add") || str_eq(name, "numeric_int32_saturating_add") || str_eq(name, "numeric_int32_sub") || str_eq(name, "numeric_int32_mul") || str_eq(name, "numeric_int32_div") || str_eq(name, "numeric_int32_rem") {
        return mono("int * int -> int");
    }
    if str_eq(name, "numeric_int32_checked_add") {
        return mono("int * int -> bool * int");
    }
    if str_eq(name, "numeric_word32_min_value") || str_eq(name, "numeric_word32_max_value") {
        return mono("unit -> word");
    }
    if str_eq(name, "numeric_word32_of_word") || str_eq(name, "numeric_word32_to_word") {
        return mono("word -> word");
    }
    if str_eq(name, "numeric_word32_checked_of_word") {
        return mono("word -> bool * word");
    }
    if str_eq(name, "numeric_word32_of_int") {
        return mono("int -> word");
    }
    if str_eq(name, "numeric_word32_checked_of_int") {
        return mono("int -> bool * word");
    }
    if str_eq(name, "numeric_word32_to_int") {
        return mono("word -> int");
    }
    if str_eq(name, "numeric_word32_add") || str_eq(name, "numeric_word32_saturating_add") || str_eq(name, "numeric_word32_sub") || str_eq(name, "numeric_word32_mul") || str_eq(name, "numeric_word32_div") || str_eq(name, "numeric_word32_rem") {
        return mono("word * word -> word");
    }
    if str_eq(name, "numeric_word32_checked_add") {
        return mono("word * word -> bool * word");
    }
    if str_eq(name, "numeric_float32_of_float") || str_eq(name, "numeric_float32_to_float") || str_eq(name, "numeric_float32_neg") {
        return mono("float -> float");
    }
    if str_eq(name, "numeric_float32_add") || str_eq(name, "numeric_float32_sub") || str_eq(name, "numeric_float32_mul") || str_eq(name, "numeric_float32_div") {
        return mono("float * float -> float");
    }
    if str_eq(name, "string_length") {
        return mono("string -> int");
    }
    if str_eq(name, "substring") {
        return mono("string * int * int -> string");
    }
    if str_eq(name, "string_contains") || str_eq(name, "starts_with") || str_eq(name, "ends_with") {
        return mono("string * string -> bool");
    }
    if str_eq(name, "trim") || str_eq(name, "to_upper") || str_eq(name, "to_lower") {
        return mono("string -> string");
    }
    if str_eq(name, "split") {
        return mono("string * string -> string list");
    }
    if str_eq(name, "string_replace") {
        return mono("string * string * string -> string");
    }
    if str_eq(name, "string_join") {
        return mono("string list * string -> string");
    }
    if str_eq(name, "sqrt") || str_eq(name, "abs_float") {
        return mono("float -> float");
    }
    if str_eq(name, "abs_int") {
        return mono("int -> int");
    }
    if str_eq(name, "floor") || str_eq(name, "ceil") {
        return mono("float -> int");
    }
    if str_eq(name, "read_file") {
        return mono("string -> string");
    }
    if str_eq(name, "read_file_bytes") {
        return mono("string -> bytes");
    }
    if str_eq(name, "write_file") {
        return mono("string * string -> unit");
    }
    if str_eq(name, "file_exists") || str_eq(name, "is_dir") || str_eq(name, "is_file") {
        return mono("string -> bool");
    }
    if str_eq(name, "list_dir") || str_eq(name, "glob") || str_eq(name, "walk_dir") {
        return mono("string -> string list");
    }
    if str_eq(name, "remove_file") || str_eq(name, "create_dir") {
        return mono("string -> unit");
    }
    if str_eq(name, "read_file_tagged") {
        return mono("string * int * int -> string");
    }
    if str_eq(name, "edit_file_tagged") {
        return mono("string * string -> string");
    }
    if str_eq(name, "path_join") {
        return mono("string * string -> string");
    }
    if str_eq(name, "http_get") {
        return mono("string -> int * (string * string) list * string");
    }
    if str_eq(name, "http") {
        return mono("string * string * (string * string) list * string -> int * (string * string) list * string");
    }
    if str_eq(name, "http_bytes") {
        return mono("string * string * (string * string) list * string -> int * (string * string) list * bytes");
    }
    if str_eq(name, "http_json") || str_eq(name, "http_msgpack") {
        return poly("string * string * (string * string) list * string -> int * (string * string) list * 'a");
    }
    if str_eq(name, "bytes_length") {
        return mono("bytes -> int");
    }
    if str_eq(name, "bytes_to_string") {
        return mono("bytes -> string");
    }
    if str_eq(name, "string_to_bytes") {
        return mono("string -> bytes");
    }
    if str_eq(name, "bytes_get") {
        return mono("bytes * int -> int");
    }
    if str_eq(name, "bytes_slice") {
        return mono("bytes * int * int -> bytes");
    }
    if str_eq(name, "blake3") {
        return mono("bytes -> string");
    }
    if str_eq(name, "random_bytes") {
        return mono("int -> bytes");
    }
    if str_eq(name, "rng_seed") {
        return mono("bytes -> rng");
    }
    if str_eq(name, "rng_bytes") {
        return mono("rng * int -> bytes * rng");
    }
    if str_eq(name, "rng_int") {
        return mono("rng * int -> int * rng");
    }
    if str_eq(name, "regex_match") {
        return mono("string * string -> bool");
    }
    if str_eq(name, "regex_replace") {
        return mono("string * string * string -> string");
    }
    if str_eq(name, "json_get") {
        return mono("string * string -> string");
    }
    if str_eq(name, "json_keys") {
        return mono("string -> string list");
    }
    if str_eq(name, "json_length") {
        return mono("string -> int");
    }
    if str_eq(name, "json_parse") {
        return poly("string -> 'a");
    }
    if str_eq(name, "json_to_string") {
        return poly("'a -> string");
    }
    if str_eq(name, "getenv") {
        return mono("string -> string");
    }
    if str_eq(name, "epoch") || str_eq(name, "epoch_ms") || str_eq(name, "monotonic_ms") {
        return mono("unit -> int");
    }
    if str_eq(name, "sleep") {
        return mono("int -> unit");
    }
    if str_eq(name, "date_utc_tz") || str_eq(name, "date_utc_now") {
        return mono("unit -> string");
    }
    if str_eq(name, "date_local_tz") {
        return mono("unit -> bool * string");
    }
    if str_eq(name, "date_timezone_of") {
        return mono("string -> bool * string");
    }
    if str_eq(name, "date_fixed_offset") {
        return mono("int -> string");
    }
    if str_eq(name, "date_now_in") {
        return mono("string -> string");
    }
    if str_eq(name, "date_from_instant") {
        return mono("int * string -> string");
    }
    if str_eq(name, "date_to_epoch_ms") {
        return mono("string -> int");
    }
    if str_eq(name, "date_to_timezone") || str_eq(name, "date_in_timezone") {
        return mono("string * string -> string");
    }
    if str_eq(name, "date_year") || str_eq(name, "date_month") || str_eq(name, "date_day") || str_eq(name, "date_hour") || str_eq(name, "date_minute") || str_eq(name, "date_second") || str_eq(name, "date_millisecond") || str_eq(name, "date_weekday") {
        return mono("string -> int");
    }
    if str_eq(name, "date_to_rfc3339") || str_eq(name, "date_to_rfc2822") {
        return mono("string -> string");
    }
    if str_eq(name, "date_format") {
        return mono("string * string -> string");
    }
    if str_eq(name, "date_parse_rfc3339") || str_eq(name, "date_parse_rfc9557") {
        return mono("string -> bool * string");
    }
    if str_eq(name, "spawn") {
        return poly("(unit -> 'a) -> pid");
    }
    if str_eq(name, "await_process") || str_eq(name, "await_process_result") {
        return poly("pid -> 'a");
    }
    if str_eq(name, "cancel") {
        return mono("pid -> unit");
    }
    if str_eq(name, "wait_any") {
        return mono("pid list -> pid");
    }
    if str_eq(name, "exec") {
        return mono("string * string list -> int * string * string");
    }
    if str_eq(name, "exit") {
        return mono("int -> unit");
    }
    if str_eq(name, "assert") {
        return mono("bool * string -> unit");
    }
    if str_eq(name, "panic") {
        return poly("string -> 'a");
    }
    if str_eq(name, "assert_eq") {
        return poly("'a * 'a * string -> unit");
    }
    None
}
/// The package name under which the internal modules are imported.
pub const INTERNAL_BUILTIN_PACKAGE: &'static str = "__Builtin";

/// A module of the internal package that wraps raw builtins.
#[derive(Debug, Clone, Copy, PartialEq, Eq)]
pub struct InternalBuiltinModule {
    pub leaf_name: &'static str,
    pub import_name: &'static str,
    pub feature_name: &'static str,
    pub enabled: bool,
    pub source: &'static str,
}

/// The mathematical value of an internal module's description.
pub struct ModuleView {
    pub leaf_name: Seq<char>,
    pub import_name: Seq<char>,
    pub feature_name: Seq<char>,
    pub enabled: bool,
    pub source: Seq<char>,
}

impl View for InternalBuiltinModule {
    type V = ModuleView;

    open spec fn view(&self) -> ModuleView {
        ModuleView {
            leaf_name: self.leaf_name@,
            import_name: self.import_name@,
            feature_name: self.feature_name@,
            enabled: self.enabled,
            source: self.source@,
        }
    }
}

pub open spec fn modules_view(ms: Seq<InternalBuiltinModule>) -> Seq<ModuleView> {
    ms.map_values(|m: InternalBuiltinModule| m@)
}

pub open spec fn module_entry(
    leaf_name: Seq<char>,
    import_name: Seq<char>,
    feature_name: Seq<char>,
    source: Seq<char>,
) -> ModuleView {
    ModuleView { leaf_name, import_name, feature_name, enabled: true, source }
}

/// The internal modules, in order.
pub open spec fn module_table() -> Seq<ModuleView> {
    seq![
        module_entry("Filesystem"@, "__Builtin.Filesystem"@, "builtin-filesystem"@, r#"structure BuiltinFilesystem = struct
  val read_text_raw = read_file
  val read_bytes_raw = read_file_bytes
  val write_text_raw = write_file
  val exists_raw = file_exists
  val list_entries_raw = list_dir
  val remove_raw = remove_file
  val create_directory_raw = create_dir
  val is_directory_raw = is_dir
  val is_regular_file_raw = is_file
  val glob_raw = glob
  val walk_raw = walk_dir
end
"#@),
        module_entry("Path"@, "__Builtin.Path"@, "builtin-path"@, r#"structure BuiltinPath = struct
  val join_raw = path_join
end
"#@),
        module_entry("Json"@, "__Builtin.Json"@, "builtin-json"@, r#"structure BuiltinJson = struct
  val parse_raw = json_parse
  val to_string_raw = json_to_string
  val get_raw = json_get
  val keys_raw = json_keys
  val length_raw = json_length
end
"#@),
        module_entry("Hash"@, "__Builtin.Hash"@, "builtin-hash"@, r#"structure BuiltinHash = struct
  val blake3_raw = blake3
end
"#@),
        module_entry("Stdio"@, "__Builtin.Stdio"@, "builtin-stdio"@, r#"structure BuiltinStdio = struct
  val print_raw = print
  val println_raw = println
  val read_line_raw = read_line
  val read_stdin_raw = read_stdin
end
"#@),
        module_entry("Http"@, "__Builtin.Http"@, "builtin-http"@, r#"structure BuiltinHttp = struct
  val get_raw = http_get
  val request_raw = http
  val request_json_raw = http_json
  val request_msgpack_raw = http_msgpack
  val request_bytes_raw = http_bytes
end
"#@),
        module_entry("Process"@, "__Builtin.Process"@, "builtin-process"@, r#"structure BuiltinProcess = struct
  datatype error =
      RuntimeError of string
    | Cancelled
    | FuelExhausted
    | AlreadyJoined
    (* HeapObjectLimitExceeded (live, limit) *)
    | HeapObjectLimitExceeded of int * int

  datatype 'a await_result =
      Ok of 'a
    | Err of error

  val spawn_raw = spawn
  val await_raw = await_process
  fun await_result_raw pid =
    await_process_result pid
  val cancel_raw = cancel
  val wait_any_raw = wait_any
end
"#@),
        module_entry("Exec"@, "__Builtin.Exec"@, "builtin-exec"@, r#"structure BuiltinExec = struct
  val exec_raw = exec
end
"#@),
        module_entry("System"@, "__Builtin.System"@, "builtin-system"@, r#"structure BuiltinSystem = struct
  val exit_raw = exit
end
"#@),
        module_entry("Time"@, "__Builtin.Time"@, "builtin-time"@, r#"structure BuiltinTime = struct
  val epoch_raw = epoch
  val epoch_ms_raw = epoch_ms
  val monotonic_ms_raw = monotonic_ms
  val sleep_raw = sleep
end
"#@),
        module_entry("Numeric"@, "__Builtin.Numeric"@, "builtin-convert"@, r#"structure BuiltinNumeric = struct
  val int32_min_value_raw = numeric_int32_min_value
  val int32_max_value_raw = numeric_int32_max_value
  val int32_of_int_raw = numeric_int32_of_int
  val int32_checked_of_int_raw = numeric_int32_checked_of_int
  val int32_to_int_raw = numeric_int32_to_int
  val int32_add_raw = numeric_int32_add
  val int32_checked_add_raw = numeric_int32_checked_add
  val int32_wrapping_add_raw = numeric_int32_wrapping_add
  val int32_saturating_add_raw = numeric_int32_saturating_add
  val int32_sub_raw = numeric_int32_sub
  val int32_mul_raw = numeric_int32_mul
  val int32_div_raw = numeric_int32_div
  val int32_rem_raw = numeric_int32_rem
  val int32_neg_raw = numeric_int32_neg

  val word32_min_value_raw = numeric_word32_min_value
  val word32_max_value_raw = numeric_word32_max_value
  val word32_of_word_raw = numeric_word32_of_word
  val word32_checked_of_word_raw = numeric_word32_checked_of_word
  val word32_of_int_raw = numeric_word32_of_int
  val word32_checked_of_int_raw = numeric_word32_checked_of_int
  val word32_to_word_raw = numeric_word32_to_word
  val word32_to_int_raw = numeric_word32_to_int
  val word32_add_raw = numeric_word32_add
  val word32_checked_add_raw = numeric_word32_checked_add
  val word32_saturating_add_raw = numeric_word32_saturating_add
  val word32_sub_raw = numeric_word32_sub
  val word32_mul_raw = numeric_word32_mul
  val word32_div_raw = numeric_word32_div
  val word32_rem_raw = numeric_word32_rem

  val float32_of_float_raw = numeric_float32_of_float
  val float32_to_float_raw = numeric_float32_to_float
  val float32_neg_raw = numeric_float32_neg
  val float32_add_raw = numeric_float32_add
  val float32_sub_raw = numeric_float32_sub
  val float32_mul_raw = numeric_float32_mul
  val float32_div_raw = numeric_float32_div
end
"#@),
        module_entry("Date"@, "__Builtin.Date"@, "builtin-time"@, r#"structure BuiltinDate = struct
  val utc_tz_raw = date_utc_tz
  val local_tz_raw = date_local_tz
  val timezone_of_raw = date_timezone_of
  val fixed_offset_raw = date_fixed_offset
  val utc_now_raw = date_utc_now
  val now_in_raw = date_now_in
  val from_instant_raw = date_from_instant
  val to_epoch_ms_raw = date_to_epoch_ms
  val to_timezone_raw = date_to_timezone
  val in_timezone_raw = date_in_timezone
  val year_raw = date_year
  val month_raw = date_month
  val day_raw = date_day
  val hour_raw = date_hour
  val minute_raw = date_minute
  val second_raw = date_second
  val millisecond_raw = date_millisecond
  val weekday_raw = date_weekday
  val to_rfc3339_raw = date_to_rfc3339
  val to_rfc2822_raw = date_to_rfc2822
  val format_raw = date_format
  val parse_rfc3339_raw = date_parse_rfc3339
  val parse_rfc9557_raw = date_parse_rfc9557
end
"#@),
        module_entry("Hashline"@, "__Builtin.Hashline"@, "builtin-filesystem"@, r#"structure BuiltinHashline = struct
  val read_tagged_raw = read_file_tagged
  val edit_tagged_raw = edit_file_tagged
end
"#@),
    ]
}

/// The internal modules, in order. Every builtin family is compiled in, so
/// each module is enabled.
pub fn internal_builtin_modules() -> (r: Vec<InternalBuiltinModule>)
    ensures
        modules_view(r@) == module_table(),
{
    let v = vec![
        InternalBuiltinModule {
            leaf_name: "Filesystem",
            import_name: "__Builtin.Filesystem",
            feature_name: "builtin-filesystem",
            enabled: true,
            source: r#"structure BuiltinFilesystem = struct
  val read_text_raw = read_file
  val read_bytes_raw = read_file_bytes
  val write_text_raw = write_file
  val exists_raw = file_exists
  val list_entries_raw = list_dir
  val remove_raw = remove_file
  val create_directory_raw = create_dir
  val is_directory_raw = is_dir
  val is_regular_file_raw = is_file
  val glob_raw = glob
  val walk_raw = walk_dir
end
"#,
        },
        InternalBuiltinModule {
            leaf_name: "Path",
            import_name: "__Builtin.Path",
            feature_name: "builtin-path",
            enabled: true,
            source: r#"structure BuiltinPath = struct
  val join_raw = path_join
end
"#,
        },
        InternalBuiltinModule {
            leaf_name: "Json",
            import_name: "__Builtin.Json",
            feature_name: "builtin-json",
            enabled: true,
            source: r#"structure BuiltinJson = struct
  val parse_raw = json_parse
  val to_string_raw = json_to_string
  val get_raw = json_get
  val keys_raw = json_keys
  val length_raw = json_length
end
"#,
        },
        InternalBuiltinModule {
            leaf_name: "Hash",
            import_name: "__Builtin.Hash",
            feature_name: "builtin-hash",
            enabled: true,
            source: r#"structure BuiltinHash = struct
  val blake3_raw = blake3
end
"#,
        },
        InternalBuiltinModule {
            leaf_name: "Stdio",
            import_name: "__Builtin.Stdio",
            feature_name: "builtin-stdio",
            enabled: true,
            source: r#"structure BuiltinStdio = struct
  val print_raw = print
  val println_raw = println
  val read_line_raw = read_line
  val read_stdin_raw = read_stdin
end
"#,
        },
        InternalBuiltinModule {
            leaf_name: "Http",
            import_name: "__Builtin.Http",
            feature_name: "builtin-http",
            enabled: true,
            source: r#"structure BuiltinHttp = struct
  val get_raw = http_get
  val request_raw = http
  val request_json_raw = http_json
  val request_msgpack_raw = http_msgpack
  val request_bytes_raw = http_bytes
end
"#,
        },
        InternalBuiltinModule {
            leaf_name: "Process",
            import_name: "__Builtin.Process",
            feature_name: "builtin-process",
            enabled: true,
            source: r#"structure BuiltinProcess = struct
  datatype error =
      RuntimeError of string
    | Cancelled
    | FuelExhausted
    | AlreadyJoined
    (* HeapObjectLimitExceeded (live, limit) *)
    | HeapObjectLimitExceeded of int * int

  datatype 'a await_result =
      Ok of 'a
    | Err of error

  val spawn_raw = spawn
  val await_raw = await_process
  fun await_result_raw pid =
    await_process_result pid
  val cancel_raw = cancel
  val wait_any_raw = wait_any
end
"#,
        },
        InternalBuiltinModule {
            leaf_name: "Exec",
            import_name: "__Builtin.Exec",
            feature_name: "builtin-exec",
            enabled: true,
            source: r#"structure BuiltinExec = struct
  val exec_raw = exec
end
"#,
        },
        InternalBuiltinModule {
            leaf_name: "System",
            import_name: "__Builtin.System",
            feature_name: "builtin-system",
            enabled: true,
            source: r#"structure BuiltinSystem = struct
  val exit_raw = exit
end
"#,
        },
        InternalBuiltinModule {
            leaf_name: "Time",
            import_name: "__Builtin.Time",
            feature_name: "builtin-time",
            enabled: true,
            source: r#"structure BuiltinTime = struct
  val epoch_raw = epoch
  val epoch_ms_raw = epoch_ms
  val monotonic_ms_raw = monotonic_ms
  val sleep_raw = sleep
end
"#,
        },
        InternalBuiltinModule {
            leaf_name: "Numeric",
            import_name: "__Builtin.Numeric",
            feature_name: "builtin-convert",
            enabled: true,
            source: r#"structure BuiltinNumeric = struct
  val int32_min_value_raw = numeric_int32_min_value
  val int32_max_value_raw = numeric_int32_max_value
  val int32_of_int_raw = numeric_int32_of_int
  val int32_checked_of_int_raw = numeric_int32_checked_of_int
  val int32_to_int_raw = numeric_int32_to_int
  val int32_add_raw = numeric_int32_add
  val int32_checked_add_raw = numeric_int32_checked_add
  val int32_wrapping_add_raw = numeric_int32_wrapping_add
  val int32_saturating_add_raw = numeric_int32_saturating_add
  val int32_sub_raw = numeric_int32_sub
  val int32_mul_raw = numeric_int32_mul
  val int32_div_raw = numeric_int32_div
  val int32_rem_raw = numeric_int32_rem
  val int32_neg_raw = numeric_int32_neg

  val word32_min_value_raw = numeric_word32_min_value
  val word32_max_value_raw = numeric_word32_max_value
  val word32_of_word_raw = numeric_word32_of_word
  val word32_checked_of_word_raw = numeric_word32_checked_of_word
  val word32_of_int_raw = numeric_word32_of_int
  val word32_checked_of_int_raw = numeric_word32_checked_of_int
  val word32_to_word_raw = numeric_word32_to_word
  val word32_to_int_raw = numeric_word32_to_int
  val word32_add_raw = numeric_word32_add
  val word32_checked_add_raw = numeric_word32_checked_add
  val word32_saturating_add_raw = numeric_word32_saturating_add
  val word32_sub_raw = numeric_word32_sub
  val word32_mul_raw = numeric_word32_mul
  val word32_div_raw = numeric_word32_div
  val word32_rem_raw = numeric_word32_rem

  val float32_of_float_raw = numeric_float32_of_float
  val float32_to_float_raw = numeric_float32_to_float
  val float32_neg_raw = numeric_float32_neg
  val float32_add_raw = numeric_float32_add
  val float32_sub_raw = numeric_float32_sub
  val float32_mul_raw = numeric_float32_mul
  val float32_div_raw = numeric_float32_div
end
"#,
        },
        InternalBuiltinModule {
            leaf_name: "Date",
            import_name: "__Builtin.Date",
            feature_name: "builtin-time",
            enabled: true,
            source: r#"structure BuiltinDate = struct
  val utc_tz_raw = date_utc_tz
  val local_tz_raw = date_local_tz
  val timezone_of_raw = date_timezone_of
  val fixed_offset_raw = date_fixed_offset
  val utc_now_raw = date_utc_now
  val now_in_raw = date_now_in
  val from_instant_raw = date_from_instant
  val to_epoch_ms_raw = date_to_epoch_ms
  val to_timezone_raw = date_to_timezone
  val in_timezone_raw = date_in_timezone
  val year_raw = date_year
  val month_raw = date_month
  val day_raw = date_day
  val hour_raw = date_hour
  val minute_raw = date_minute
  val second_raw = date_second
  val millisecond_raw = date_millisecond
  val weekday_raw = date_weekday
  val to_rfc3339_raw = date_to_rfc3339
  val to_rfc2822_raw = date_to_rfc2822
  val format_raw = date_format
  val parse_rfc3339_raw = date_parse_rfc3339
  val parse_rfc9557_raw = date_parse_rfc9557
end
"#,
        },
        InternalBuiltinModule {
            leaf_name: "Hashline",
            import_name: "__Builtin.Hashline",
            feature_name: "builtin-filesystem",
            enabled: true,
            source: r#"structure BuiltinHashline = struct
  val read_tagged_raw = read_file_tagged
  val edit_tagged_raw = edit_file_tagged
end
"#,
        },
    ];
    assert(modules_view(v@) =~= module_table());
    v
}
// ── Queries ──────────────────────────────────────────────────────────

/// The first entry of `ms` called `name`.
pub open spec fn find_meta(ms: Seq<MetaView>, name: Seq<char>) -> Option<MetaView>
    decreases ms.len(),
{
    if ms.len() == 0 {
        None
    } else if ms[0].name == name {
        Some(ms[0])
    } else {
        find_meta(ms.drop_first(), name)
    }
}

/// The names of the entries of `ms` that satisfy `keep`, in order.
pub open spec fn names_where(ms: Seq<MetaView>, keep: spec_fn(MetaView) -> bool) -> Seq<
    Seq<char>,
>
    decreases ms.len(),
{
    if ms.len() == 0 {
        Seq::empty()
    } else if keep(ms[0]) {
        seq![ms[0].name] + names_where(ms.drop_first(), keep)
    } else {
        names_where(ms.drop_first(), keep)
    }
}

pub open spec fn is_core(m: MetaView) -> bool {
    m.in_core_default
}

pub open spec fn is_unrestricted_runtime(m: MetaView) -> bool {
    m.in_core_default && m.surface == BuiltinSurface::RuntimeOnly && m.capability_path is None
}

pub open spec fn is_public(m: MetaView) -> bool {
    m.surface == BuiltinSurface::Public
}

pub open spec fn strs_view(v: Seq<&'static str>) -> Seq<Seq<char>> {
    v.map_values(|s: &'static str| s@)
}

/// The description of the builtin called `name`.
#[verifier::loop_isolation(false)]
pub fn builtin_meta(name: &str) -> (r: Option<BuiltinMeta>)
    ensures
        match (r, find_meta(builtin_table(), name@)) {
            (Some(m), Some(v)) => m@ == v,
            (None, None) => true,
            _ => false,
        },
{
    let all = builtins();
    let ghost t = builtin_table();
    assert(t.subrange(0, t.len() as int) =~= t);
    let mut i: usize = 0;
    while i < all.len()
        invariant
            i <= all@.len(),
            metas_view(all@) == t,
            find_meta(t, name@) == find_meta(t.subrange(i as int, t.len() as int), name@),
        decreases all@.len() - i,
    {
        let ghost rest = t.subrange(i as int, t.len() as int);
        assert(rest.drop_first() =~= t.subrange(i + 1, t.len() as int));
        assert(rest[0] == all@[i as int]@);
        if str_eq(all[i].name, name) {
            assert(find_meta(rest, name@) == Some(rest[0]));
            return Some(all[i]);
        }
        i = i + 1;
    }
    None
}

/// The capability that grants access to the builtin called `name`.
pub fn capability_path_for_builtin(name: &str) -> (r: Option<&'static str>)
    ensures
        opt_str_view(r) == (match find_meta(builtin_table(), name@) {
            Some(m) => m.capability_path,
            None => None,
        }),
{
    match builtin_meta(name) {
        Some(m) => m.capability_path,
        None => None,
    }
}

#[verifier::loop_isolation(false)]
fn names_with(kind: u8) -> (r: Vec<&'static str>)
    requires
        kind <= 2,
    ensures
        strs_view(r@) == names_where(
            builtin_table(),
            if kind == 0 {
                |m: MetaView| is_core(m)
            } else if kind == 1 {
                |m: MetaView| is_unrestricted_runtime(m)
            } else {
                |m: MetaView| is_public(m)
            },
        ),
{
    let ghost keep: spec_fn(MetaView) -> bool = if kind == 0 {
        |m: MetaView| is_core(m)
    } else if kind == 1 {
        |m: MetaView| is_unrestricted_runtime(m)
    } else {
        |m: MetaView| is_public(m)
    };
    let all = builtins();
    let ghost t = builtin_table();
    assert(t.subrange(0, t.len() as int) =~= t);
    let mut out: Vec<&'static str> = Vec::new();
    let mut i: usize = 0;
    while i < all.len()
        invariant
            i <= all@.len(),
            metas_view(all@) == t,
            names_where(t, keep) == strs_view(out@) + names_where(
                t.subrange(i as int, t.len() as int),
                keep,
            ),
        decreases all@.len() - i,
    {
        let ghost rest = t.subrange(i as int, t.len() as int);
        assert(rest.drop_first() =~= t.subrange(i + 1, t.len() as int));
        let m = all[i];
        assert(rest[0] == m@);
        let take = if kind == 0 {
            m.in_core_default
        } else if kind == 1 {
            m.in_core_default && m.surface == BuiltinSurface::RuntimeOnly
                && m.capability_path.is_none()
        } else {
            m.surface == BuiltinSurface::Public
        };
        assert(keep(rest[0]) == take);
        if take {
            let ghost before = out@;
            out.push(m.name);
            assert(strs_view(out@) =~= strs_view(before) + seq![m.name@]);
        }
        i = i + 1;
    }
    assert(t.subrange(t.len() as int, t.len() as int) =~= Seq::<MetaView>::empty());
    assert(strs_view(out@) + Seq::<Seq<char>>::empty() =~= strs_view(out@));
    out
}

/// The names of the builtins available by default.
pub fn core_builtin_names() -> (r: Vec<&'static str>)
    ensures
        strs_view(r@) == names_where(builtin_table(), |m: MetaView| is_core(m)),
{
    names_with(0)
}

/// The names of the runtime-only builtins that are available by default and
/// need no capability.
pub fn unrestricted_runtime_builtin_names() -> (r: Vec<&'static str>)
    ensures
        strs_view(r@) == names_where(builtin_table(), |m: MetaView| is_unrestricted_runtime(m)),
{
    names_with(1)
}

/// The names of the builtins visible to programs.
pub fn public_builtin_names() -> (r: Vec<&'static str>)
    ensures
        strs_view(r@) == names_where(builtin_table(), |m: MetaView| is_public(m)),
{
    names_with(2)
}

/// Whether `name` is a builtin visible to programs.
pub fn is_public_builtin(name: &str) -> (r: bool)
    ensures
        r == (find_meta(builtin_table(), name@) matches Some(m) && is_public(m)),
{
    match builtin_meta(name) {
        Some(m) => m.surface == BuiltinSurface::Public,
        None => false,
    }
}

/// The pairs (name, signature) of the builtins with a type signature.
pub open spec fn signed_builtins(ms: Seq<MetaView>) -> Seq<(Seq<char>, SignatureView)>
    decreases ms.len(),
{
    if ms.len() == 0 {
        Seq::empty()
    } else {
        match signature_of(ms[0].name) {
            Some(s) => seq![(ms[0].name, s)] + signed_builtins(ms.drop_first()),
            None => signed_builtins(ms.drop_first()),
        }
    }
}

pub open spec fn signed_view(v: Seq<(&'static str, BuiltinTypeSignature)>) -> Seq<
    (Seq<char>, SignatureView),
> {
    v.map_values(|p: (&'static str, BuiltinTypeSignature)| (p.0@, p.1@))
}

/// Every builtin that has a type signature, with it, in table order.
#[verifier::loop_isolation(false)]
pub fn builtin_type_signatures() -> (r: Vec<(&'static str, BuiltinTypeSignature)>)
    ensures
        signed_view(r@) == signed_builtins(builtin_table()),
{
    let all = builtins();
    let ghost t = builtin_table();
    assert(t.subrange(0, t.len() as int) =~= t);
    let mut out: Vec<(&'static str, BuiltinTypeSignature)> = Vec::new();
    let mut i: usize = 0;
    while i < all.len()
        invariant
            i <= all@.len(),
            metas_view(all@) == t,
            signed_builtins(t) == signed_view(out@) + signed_builtins(
                t.subrange(i as int, t.len() as int),
            ),
        decreases all@.len() - i,
    {
        let ghost rest = t.subrange(i as int, t.len() as int);
        assert(rest.drop_first() =~= t.subrange(i + 1, t.len() as int));
        let m = all[i];
        assert(rest[0] == m@);
        match builtin_type_signature(m.name) {
            Some(sig) => {
                let ghost before = out@;
                let ghost sv = sig@;
                out.push((m.name, sig));
                assert(signed_view(out@) =~= signed_view(before) + seq![(m.name@, sv)]);
            },
            None => {},
        }
        i = i + 1;
    }
    assert(t.subrange(t.len() as int, t.len() as int) =~= Seq::<MetaView>::empty());
    assert(signed_view(out@) + Seq::<(Seq<char>, SignatureView)>::empty() =~= signed_view(out@));
    out
}

/// Whether `package_name` names the internal builtin package.
pub fn is_internal_builtin_package(package_name: &str) -> (r: bool)
    ensures
        r == (package_name@ == INTERNAL_BUILTIN_PACKAGE@),
{
    str_eq(package_name, INTERNAL_BUILTIN_PACKAGE)
}

/// The first module of `ms` with leaf name `leaf`.
pub open spec fn find_module(ms: Seq<ModuleView>, leaf: Seq<char>) -> Option<ModuleView>
    decreases ms.len(),
{
    if ms.len() == 0 {
        None
    } else if ms[0].leaf_name == leaf {
        Some(ms[0])
    } else {
        find_module(ms.drop_first(), leaf)
    }
}

/// The internal module with leaf name `leaf_name`.
#[verifier::loop_isolation(false)]
pub fn internal_builtin_module(leaf_name: &str) -> (r: Option<InternalBuiltinModule>)
    ensures
        match (r, find_module(module_table(), leaf_name@)) {
            (Some(m), Some(v)) => m@ == v,
            (None, None) => true,
            _ => false,
        },
{
    let all = internal_builtin_modules();
    let ghost t = module_table();
    assert(t.subrange(0, t.len() as int) =~= t);
    let mut i: usize = 0;
    while i < all.len()
        invariant
            i <= all@.len(),
            modules_view(all@) == t,
            find_module(t, leaf_name@) == find_module(
                t.subrange(i as int, t.len() as int),
                leaf_name@,
            ),
        decreases all@.len() - i,
    {
        let ghost rest = t.subrange(i as int, t.len() as int);
        assert(rest.drop_first() =~= t.subrange(i + 1, t.len() as int));
        assert(rest[0] == all@[i as int]@);
        if str_eq(all[i].leaf_name, leaf_name) {
            assert(find_module(rest, leaf_name@) == Some(rest[0]));
            return Some(all[i]);
        }
        i = i + 1;
    }
    None
}

// ── Process constructors ─────────────────────────────────────────────

/// The constructors of the process await result, with tags and arities.
pub fn process_await_result_constructors() -> (r: Vec<(&'static str, u16, usize)>)
    ensures
        r@.len() == 2,
        r@[0].0@ == "Ok"@ && r@[0].1 == 0 && r@[0].2 == 1,
        r@[1].0@ == "Err"@ && r@[1].1 == 1 && r@[1].2 == 1,
{
    vec![("Ok", 0, 1), ("Err", 1, 1)]
}

/// The constructors of the process join error, with tags and arities.
pub fn process_join_error_constructors() -> (r: Vec<(&'static str, u16, usize)>)
    ensures
        r@.len() == 5,
        r@[0].0@ == "RuntimeError"@ && r@[0].1 == 0 && r@[0].2 == 1,
        r@[1].0@ == "Cancelled"@ && r@[1].1 == 1 && r@[1].2 == 0,
        r@[2].0@ == "FuelExhausted"@ && r@[2].1 == 2 && r@[2].2 == 0,
        r@[3].0@ == "AlreadyJoined"@ && r@[3].1 == 3 && r@[3].2 == 0,
        r@[4].0@ == "HeapObjectLimitExceeded"@ && r@[4].1 == 4 && r@[4].2 == 1,
{
    vec![
        ("RuntimeError", 0, 1),
        ("Cancelled", 1, 0),
        ("FuelExhausted", 2, 0),
        ("AlreadyJoined", 3, 0),
        ("HeapObjectLimitExceeded", 4, 1),
    ]
}

pub const PROCESS_AWAIT_RESULT_OK_TAG: u16 = 0;
pub const PROCESS_AWAIT_RESULT_ERR_TAG: u16 = 1;
pub const PROCESS_JOIN_ERROR_RUNTIME_ERROR_TAG: u16 = 0;
pub const PROCESS_JOIN_ERROR_CANCELLED_TAG: u16 = 1;
pub const PROCESS_JOIN_ERROR_FUEL_EXHAUSTED_TAG: u16 = 2;
pub const PROCESS_JOIN_ERROR_ALREADY_JOINED_TAG: u16 = 3;
pub const PROCESS_JOIN_ERROR_HEAP_LIMIT_TAG: u16 = 4;


// ── Laws of the builtin table ───────────────────────────────────────────

pub open spec fn is_runtime_only(m: MetaView) -> bool {
    m.surface == BuiltinSurface::RuntimeOnly
}

/// Some entry of `ms` is named `n` and satisfies `keep`.
pub open spec fn has_entry(ms: Seq<MetaView>, keep: spec_fn(MetaView) -> bool, n: Seq<char>) -> bool {
    exists|i: int| 0 <= i < ms.len() && #[trigger] ms[i].name == n && keep(ms[i])
}

/// `a` is `b` with some entries left out, the rest in order.
pub open spec fn is_subseq(a: Seq<Seq<char>>, b: Seq<Seq<char>>) -> bool
    decreases b.len(),
{
    if a.len() == 0 {
        true
    } else if b.len() == 0 {
        false
    } else if a[0] == b[0] {
        is_subseq(a.drop_first(), b.drop_first())
    } else {
        is_subseq(a, b.drop_first())
    }
}

/// A name is kept exactly when some entry of that name satisfies `keep`.
pub proof fn lemma_names_where_contains(ms: Seq<MetaView>, keep: spec_fn(MetaView) -> bool, n: Seq<char>)
    ensures
        names_where(ms, keep).contains(n) <==> has_entry(ms, keep, n),
    decreases ms.len(),
{
    if ms.len() > 0 {
        let rest = ms.drop_first();
        lemma_names_where_contains(rest, keep, n);
        let w = names_where(ms, keep);
        let wr = names_where(rest, keep);
        if has_entry(rest, keep, n) {
            let i = choose|i: int| 0 <= i < rest.len() && #[trigger] rest[i].name == n && keep(rest[i]);
            assert(ms[i + 1].name == n);
        }
        if has_entry(ms, keep, n) {
            let i = choose|i: int| 0 <= i < ms.len() && #[trigger] ms[i].name == n && keep(ms[i]);
            if i > 0 {
                assert(rest[i - 1].name == n);
            }
        }
        if keep(ms[0]) {
            assert(w == seq![ms[0].name] + wr);
            if wr.contains(n) {
                let j = choose|j: int| 0 <= j < wr.len() && wr[j] == n;
                assert(w[j + 1] == n);
            }
            if w.contains(n) && n != ms[0].name {
                let j = choose|j: int| 0 <= j < w.len() && w[j] == n;
                assert(j > 0);
                assert(wr[j - 1] == n);
            }
            if n == ms[0].name {
                assert(w[0] == n);
            }
        } else {
            assert(w == wr);
        }
    }
}

/// Keeping fewer entries gives a subsequence of the names.
pub proof fn lemma_names_where_subseq(
    ms: Seq<MetaView>,
    fewer: spec_fn(MetaView) -> bool,
    more: spec_fn(MetaView) -> bool,
)
    requires
        forall|m: MetaView| #[trigger] fewer(m) ==> more(m),
    ensures
        is_subseq(names_where(ms, fewer), names_where(ms, more)),
    decreases ms.len(),
{
    if ms.len() > 0 {
        let rest = ms.drop_first();
        lemma_names_where_subseq(rest, fewer, more);
        let a = names_where(ms, fewer);
        let b = names_where(ms, more);
        if fewer(ms[0]) {
            assert(a.drop_first() =~= names_where(rest, fewer));
            assert(b.drop_first() =~= names_where(rest, more));
        } else if more(ms[0]) {
            assert(b.drop_first() =~= names_where(rest, more));
            lemma_subseq_skip(a, b);
        }
    }
}

proof fn lemma_subseq_skip(a: Seq<Seq<char>>, b: Seq<Seq<char>>)
    requires
        b.len() > 0,
        is_subseq(a, b.drop_first()),
    ensures
        is_subseq(a, b),
    decreases b.len(),
{
    if a.len() > 0 && a[0] == b[0] {
        let t = b.drop_first();
        lemma_subseq_drop(a, t);
        lemma_subseq_skip(a.drop_first(), t);
    }
}

proof fn lemma_subseq_drop(a: Seq<Seq<char>>, b: Seq<Seq<char>>)
    requires
        a.len() > 0,
        is_subseq(a, b),
    ensures
        is_subseq(a.drop_first(), b.drop_first()),
    decreases b.len(),
{
    if a[0] != b[0] {
        let t = b.drop_first();
        lemma_subseq_drop(a, t);
        lemma_subseq_skip(a.drop_first(), t);
    }
}

/// Every entry is either visible to programs or runtime-only.
pub proof fn lemma_surfaces_split(ms: Seq<MetaView>)
    ensures
        names_where(ms, |m: MetaView| is_public(m)).len() + names_where(ms, |m: MetaView| is_runtime_only(m)).len()
            == ms.len(),
    decreases ms.len(),
{
    if ms.len() > 0 {
        lemma_surfaces_split(ms.drop_first());
    }
}

/// The public names and the runtime-only names split the builtins: a name
/// is listed as public exactly when a builtin of that name is visible to
/// programs, as runtime-only exactly when one is runtime-only, and the two
/// lists together are as long as the table.
pub proof fn law_public_names_partition(n: Seq<char>)
    ensures
        names_where(builtin_table(), |m: MetaView| is_public(m)).contains(n) <==> has_entry(
            builtin_table(),
            |m: MetaView| is_public(m),
            n,
        ),
        names_where(builtin_table(), |m: MetaView| is_runtime_only(m)).contains(n) <==> has_entry(
            builtin_table(),
            |m: MetaView| is_runtime_only(m),
            n,
        ),
        names_where(builtin_table(), |m: MetaView| is_public(m)).len() + names_where(
            builtin_table(),
            |m: MetaView| is_runtime_only(m),
        ).len() == builtin_table().len(),
{
    lemma_names_where_contains(builtin_table(), |m: MetaView| is_public(m), n);
    lemma_names_where_contains(builtin_table(), |m: MetaView| is_runtime_only(m), n);
    lemma_surfaces_split(builtin_table());
}

/// The unrestricted runtime names are those of the default runtime-only
/// builtins that need no capability, listed in the order of the default
/// names; no entry counted among them is visible to programs.
pub proof fn law_unrestricted_runtime_names(n: Seq<char>)
    ensures
        names_where(builtin_table(), |m: MetaView| is_unrestricted_runtime(m)).contains(n) <==> has_entry(
            builtin_table(),
            |m: MetaView| is_unrestricted_runtime(m),
            n,
        ),
        is_subseq(
            names_where(builtin_table(), |m: MetaView| is_unrestricted_runtime(m)),
            names_where(builtin_table(), |m: MetaView| is_core(m)),
        ),
        is_subseq(
            names_where(builtin_table(), |m: MetaView| is_unrestricted_runtime(m)),
            names_where(builtin_table(), |m: MetaView| is_runtime_only(m)),
        ),
{
    lemma_names_where_contains(builtin_table(), |m: MetaView| is_unrestricted_runtime(m), n);
    lemma_names_where_subseq(
        builtin_table(),
        |m: MetaView| is_unrestricted_runtime(m),
        |m: MetaView| is_core(m),
    );
    lemma_names_where_subseq(
        builtin_table(),
        |m: MetaView| is_unrestricted_runtime(m),
        |m: MetaView| is_runtime_only(m),
    );
}

} // verus!
