//! Notifications through ntfy: the values a message template can use, and the
//! requests sent for a notification.
use vstd::prelude::*;
use vstd::string::*;
use crate::auth::clone_strings;
use crate::backend::{after_set_online, online_note, ElementModel};
use crate::filters::Filter;
use crate::notification::{AttributeValueChange, Notification, NotificationReason};
use crate::state::{AttributeValue, ByteCode};
use crate::string_map::StringMap;
use crate::strutil::to_owned;

verus! {

/// What `strfmt` makes of `template` with the variables `vars`: the filled-in
/// text, or `None` when the template is malformed, names a variable that `vars`
/// lacks, or asks for a format that a string cannot take.
pub uninterp spec fn strfmt_output(template: Seq<char>, vars: Map<Seq<char>, Seq<char>>) -> Option<Seq<char>>;

/// The texts of a map of texts.
pub open spec fn texts(m: Map<Seq<char>, String>) -> Map<Seq<char>, Seq<char>> {
    m.map_values(|v: String| v@)
}

/// Fills `template` with `vars` by `strfmt::strfmt`. Claimed: the outcome is a
/// function of the template and of the variables' names and texts alone; the
/// kind of error is dropped.
#[verifier::external_body]
fn strfmt_format(template: &str, vars: &StringMap<String>) -> (r: Option<String>)
    requires
        vars.wf(),
    ensures
        match r {
            Some(s) => strfmt_output(template@, texts(vars@)) == Some(s@),
            None => strfmt_output(template@, texts(vars@)) is None,
        },
{
    let map: std::collections::HashMap<String, String> = vars.entries().iter().cloned().collect();
    strfmt::strfmt(template, &map).ok()
}

/// The message template used when none is configured.
pub fn default_message() -> (r: String)
    ensures
        r@ == "{element} {reason_long}"@,
{
    String::from_str("{element} {reason_long}")
}

/// The configuration of one ntfy target.
pub struct Config {
    /// The server to post to.
    pub base: String,
    /// The topic.
    pub topic: String,
    /// The title template.
    pub title: Option<String>,
    /// The message template.
    pub message: String,
    /// Tags of the message.
    pub tags: Vec<String>,
    /// The message priority.
    pub priority: Option<u8>,
    /// The URL opened when the notification is clicked.
    pub click: Option<String>,
    /// The URL of an attachment.
    pub attach: Option<String>,
    /// Whether the message is markdown.
    pub markdown: Option<bool>,
    /// The URL of an icon.
    pub icon: Option<String>,
    /// The attachment's file name.
    pub filename: Option<String>,
    /// When to deliver the message.
    pub delay: Option<String>,
    /// An e-mail address to forward to.
    pub email: Option<String>,
    /// A phone number to call.
    pub call: Option<String>,
    /// Which notifications go to this target.
    pub filter: Filter,
    /// The access token, if the topic needs one.
    pub auth_token: Option<String>,
}

/// The JSON body posted to ntfy.
pub struct NotificationBody {
    /// The topic.
    pub topic: String,
    /// The message.
    pub message: Option<String>,
    /// The title.
    pub title: Option<String>,
    /// Tags of the message.
    pub tags: Vec<String>,
    /// The message priority.
    pub priority: Option<u8>,
    /// The URL opened when the notification is clicked.
    pub click: Option<String>,
    /// The URL of an attachment.
    pub attach: Option<String>,
    /// Whether the message is markdown.
    pub markdown: Option<bool>,
    /// The URL of an icon.
    pub icon: Option<String>,
    /// The attachment's file name.
    pub filename: Option<String>,
    /// When to deliver the message.
    pub delay: Option<String>,
    /// An e-mail address to forward to.
    pub email: Option<String>,
    /// A phone number to call.
    pub call: Option<String>,
}

fn clone_opt(o: &Option<String>) -> (r: Option<String>)
    ensures
        r == *o,
{
    match o {
        Some(s) => Some(s.clone()),
        None => None,
    }
}

impl NotificationBody {
    /// The body that a target's configuration gives, before title and message are filled in.
    pub fn from_config(c: &Config) -> (r: Self)
        ensures
            r.topic == c.topic,
            r.message is None,
            r.title == c.title,
            r.tags@ == c.tags@,
            r.priority == c.priority,
            r.click == c.click,
            r.attach == c.attach,
            r.markdown == c.markdown,
            r.icon == c.icon,
            r.filename == c.filename,
            r.delay == c.delay,
            r.email == c.email,
            r.call == c.call,
    {
        NotificationBody {
            topic: c.topic.clone(),
            message: None,
            title: clone_opt(&c.title),
            tags: clone_strings(&c.tags),
            priority: c.priority,
            click: clone_opt(&c.click),
            attach: clone_opt(&c.attach),
            markdown: c.markdown,
            icon: clone_opt(&c.icon),
            filename: clone_opt(&c.filename),
            delay: clone_opt(&c.delay),
            email: clone_opt(&c.email),
            call: clone_opt(&c.call),
        }
    }
}

/// How the element is called: its `name` attribute when that is a string, else its id.
pub open spec fn element_name(element_id: Seq<char>, name: Option<AttributeValue>) -> Seq<char> {
    match name {
        Some(AttributeValue::Custom(ByteCode::String(n))) => n@,
        _ => element_id,
    }
}

/// The short description of a change.
pub open spec fn reason_short(reason: NotificationReason) -> Seq<char> {
    match reason {
        NotificationReason::OnlineStatusChanged(true) => "went online"@,
        NotificationReason::OnlineStatusChanged(false) => "went offline"@,
        NotificationReason::AttributeEdit(edit) => match edit.change {
            AttributeValueChange::Create(_) => "got attribute "@ + edit.id@,
            AttributeValueChange::Edit(_, _) => "attribute "@ + edit.id@ + " changed"@,
            AttributeValueChange::Delete(_) => "attribute "@ + edit.id@ + " got deleted"@,
        },
        NotificationReason::NewElement(true) => "created (online)"@,
        NotificationReason::NewElement(false) => "created (offline)"@,
    }
}

/// The long description of a change; `shown_old` and `shown_new` are how the old
/// and new attribute values of an edit are written.
pub open spec fn reason_long(reason: NotificationReason, shown_old: Seq<char>, shown_new: Seq<char>) -> Seq<char> {
    match reason {
        NotificationReason::OnlineStatusChanged(true) => "went online"@,
        NotificationReason::OnlineStatusChanged(false) => "went offline"@,
        NotificationReason::AttributeEdit(edit) => match edit.change {
            AttributeValueChange::Create(_) => "attribute "@ + edit.id@ + " got created ("@ + shown_new + ")"@,
            AttributeValueChange::Edit(_, _) => "attribute "@ + edit.id@ + " got changed ("@ + shown_old + " => "@ + shown_new + ")"@,
            AttributeValueChange::Delete(_) => "attribute "@ + edit.id@ + " got deleted ("@ + shown_old + ")"@,
        },
        NotificationReason::NewElement(true) => "got created and went online"@,
        NotificationReason::NewElement(false) => "got created and went offline"@,
    }
}

/// The variables a template can use for `n`: the ids, the element's name, the two
/// descriptions, and either the new and old online status or the attribute's id
/// and its new and old value as they apply.
pub open spec fn format_values(n: Notification, name: Option<AttributeValue>, shown_old: Seq<char>, shown_new: Seq<char>) -> Map<Seq<char>, Seq<char>> {
    let base = Map::<Seq<char>, Seq<char>>::empty()
        .insert("component_id"@, n.component_id@)
        .insert("element_id"@, n.element_id@)
        .insert("element"@, element_name(n.element_id@, name))
        .insert("reason_short"@, reason_short(n.reason))
        .insert("reason_long"@, reason_long(n.reason, shown_old, shown_new));
    match n.reason {
        NotificationReason::NewElement(true) | NotificationReason::OnlineStatusChanged(true) =>
            base.insert("status_new"@, "online"@).insert("status_old"@, "offline"@),
        NotificationReason::NewElement(false) | NotificationReason::OnlineStatusChanged(false) =>
            base.insert("status_new"@, "offline"@).insert("status_old"@, "online"@),
        NotificationReason::AttributeEdit(edit) => {
            let with_id = base.insert("attr_id"@, edit.id@);
            match edit.change {
                AttributeValueChange::Create(_) => with_id.insert("attr_new_value"@, shown_new),
                AttributeValueChange::Edit(_, _) => with_id.insert("attr_new_value"@, shown_new).insert("attr_old_value"@, shown_old),
                AttributeValueChange::Delete(_) => with_id.insert("attr_old_value"@, shown_old),
            }
        },
    }
}

fn put(m: &mut StringMap<String>, key: &str, value: String)
    requires
        old(m).wf(),
    ensures
        final(m).wf(),
        texts(final(m)@) == texts(old(m)@).insert(key@, value@),
{
    let ghost before = m@;
    m.insert(to_owned(key), value);
    assert(texts(m@) =~= texts(before).insert(key@, value@));
}

fn reason_short_text(reason: &NotificationReason) -> (r: String)
    ensures
        r@ == reason_short(*reason),
{
    match reason {
        NotificationReason::OnlineStatusChanged(true) => String::from_str("went online"),
        NotificationReason::OnlineStatusChanged(false) => String::from_str("went offline"),
        NotificationReason::AttributeEdit(edit) => match &edit.change {
            AttributeValueChange::Create(_) => String::from_str("got attribute ").concat(edit.id.as_str()),
            AttributeValueChange::Edit(_, _) => String::from_str("attribute ").concat(edit.id.as_str()).concat(" changed"),
            AttributeValueChange::Delete(_) => String::from_str("attribute ").concat(edit.id.as_str()).concat(" got deleted"),
        },
        NotificationReason::NewElement(true) => String::from_str("created (online)"),
        NotificationReason::NewElement(false) => String::from_str("created (offline)"),
    }
}

fn reason_long_text(reason: &NotificationReason, shown_old: &str, shown_new: &str) -> (r: String)
    ensures
        r@ == reason_long(*reason, shown_old@, shown_new@),
{
    match reason {
        NotificationReason::OnlineStatusChanged(true) => String::from_str("went online"),
        NotificationReason::OnlineStatusChanged(false) => String::from_str("went offline"),
        NotificationReason::AttributeEdit(edit) => match &edit.change {
            AttributeValueChange::Create(_) => String::from_str("attribute ").concat(edit.id.as_str())
                .concat(" got created (").concat(shown_new).concat(")"),
            AttributeValueChange::Edit(_, _) => String::from_str("attribute ").concat(edit.id.as_str())
                .concat(" got changed (").concat(shown_old).concat(" => ").concat(shown_new).concat(")"),
            AttributeValueChange::Delete(_) => String::from_str("attribute ").concat(edit.id.as_str())
                .concat(" got deleted (").concat(shown_old).concat(")"),
        },
        NotificationReason::NewElement(true) => String::from_str("got created and went online"),
        NotificationReason::NewElement(false) => String::from_str("got created and went offline"),
    }
}

/// The variables a template can use for `notification`, given the element's `name`
/// attribute and how the old and new attribute values of an edit are written.
pub fn make_format_values(notification: &Notification, name: Option<&AttributeValue>, shown_old: &str, shown_new: &str) -> (r: StringMap<String>)
    ensures
        r.wf(),
        texts(r@) == format_values(*notification, match name { Some(v) => Some(*v), None => None }, shown_old@, shown_new@),
{
    let mut m: StringMap<String> = StringMap::new();
    proof {
        assert(texts(m@) =~= Map::<Seq<char>, Seq<char>>::empty());
    }
    put(&mut m, "component_id", notification.component_id.clone());
    put(&mut m, "element_id", notification.element_id.clone());
    let element = match name {
        Some(AttributeValue::Custom(ByteCode::String(n))) => n.clone(),
        _ => notification.element_id.clone(),
    };
    put(&mut m, "element", element);
    put(&mut m, "reason_short", reason_short_text(&notification.reason));
    put(&mut m, "reason_long", reason_long_text(&notification.reason, shown_old, shown_new));
    match &notification.reason {
        NotificationReason::NewElement(true) | NotificationReason::OnlineStatusChanged(true) => {
            put(&mut m, "status_new", String::from_str("online"));
            put(&mut m, "status_old", String::from_str("offline"));
        },
        NotificationReason::NewElement(false) | NotificationReason::OnlineStatusChanged(false) => {
            put(&mut m, "status_new", String::from_str("offline"));
            put(&mut m, "status_old", String::from_str("online"));
        },
        NotificationReason::AttributeEdit(edit) => {
            put(&mut m, "attr_id", edit.id.clone());
            match &edit.change {
                AttributeValueChange::Create(_) => {
                    put(&mut m, "attr_new_value", to_owned(shown_new));
                },
                AttributeValueChange::Edit(_, _) => {
                    put(&mut m, "attr_new_value", to_owned(shown_new));
                    put(&mut m, "attr_old_value", to_owned(shown_old));
                },
                AttributeValueChange::Delete(_) => {
                    put(&mut m, "attr_old_value", to_owned(shown_old));
                },
            }
        },
    }
    m
}

/// For the notification that setting an element's online state sends, the
/// template values name the state the element has afterwards: `status_new` is
/// that state's word (`online` or `offline`), `reason_long` ends with it, and
/// `status_old` is the other word.
pub proof fn law_online_texts_name_the_new_state(
    m: Map<Seq<char>, ElementModel>,
    e: Seq<char>,
    s: bool,
    n: Notification,
    name: Option<AttributeValue>,
    shown_old: Seq<char>,
    shown_new: Seq<char>,
)
    requires
        online_note(n, m, e, s),
    ensures
        ({
            let now_online = after_set_online(m, e, s)[e].online;
            let word = if now_online { "online"@ } else { "offline"@ };
            let other = if now_online { "offline"@ } else { "online"@ };
            let vars = format_values(n, name, shown_old, shown_new);
            &&& vars.dom().contains("status_new"@) && vars["status_new"@] == word
            &&& vars.dom().contains("status_old"@) && vars["status_old"@] == other
            &&& vars.dom().contains("reason_long"@) && word.is_suffix_of(vars["reason_long"@])
            &&& !other.is_suffix_of(vars["reason_long"@])
        }),
{
    reveal_strlit("online");
    reveal_strlit("offline");
    reveal_strlit("status_new");
    reveal_strlit("status_old");
    reveal_strlit("reason_long");
    reveal_strlit("reason_short");
    reveal_strlit("element");
    reveal_strlit("element_id");
    reveal_strlit("component_id");
    reveal_strlit("went online");
    reveal_strlit("went offline");
    reveal_strlit("got created and went online");
    reveal_strlit("got created and went offline");
    assert("status_new"@ != "status_old"@) by {
        assert("status_new"@[7] != "status_old"@[7]);
    }
    assert("reason_long"@.len() != "status_new"@.len());
    assert("reason_long"@ != "status_new"@);
    assert("reason_long"@ != "status_old"@);
    let vars = format_values(n, name, shown_old, shown_new);
    let long = reason_long(n.reason, shown_old, shown_new);
    let base = Map::<Seq<char>, Seq<char>>::empty()
        .insert("component_id"@, n.component_id@)
        .insert("element_id"@, n.element_id@)
        .insert("element"@, element_name(n.element_id@, name))
        .insert("reason_short"@, reason_short(n.reason))
        .insert("reason_long"@, long);
    assert(base["reason_long"@] == long);
    if s {
        assert(vars == base.insert("status_new"@, "online"@).insert("status_old"@, "offline"@));
    } else {
        assert(vars == base.insert("status_new"@, "offline"@).insert("status_old"@, "online"@));
    }
    assert(vars["reason_long"@] == long);
    if s {
        assert("online"@ =~= long.subrange(long.len() - 6, long.len() as int));
        assert(!("offline"@ =~= long.subrange(long.len() - 7, long.len() as int))) by {
            assert("offline"@[1] != long.subrange(long.len() - 7, long.len() as int)[1]);
        }
    } else {
        assert("offline"@ =~= long.subrange(long.len() - 7, long.len() as int));
        assert(!("online"@ =~= long.subrange(long.len() - 6, long.len() as int))) by {
            assert("online"@[0] != long.subrange(long.len() - 6, long.len() as int)[0]);
        }
    }
}

/// A template as filled in: what `strfmt` made of it, or the template itself
/// when that failed.
pub open spec fn filled(template: Seq<char>, vars: Map<Seq<char>, Seq<char>>) -> Seq<char> {
    match strfmt_output(template, vars) {
        Some(s) => s,
        None => template,
    }
}

/// The text that a template gives once formatting came out as `formatted`: the
/// formatted text, or the template unchanged when formatting failed.
pub fn formatted_or_template(template: &String, formatted: Option<String>) -> (r: String)
    ensures
        r@ == match formatted {
            Some(s) => s@,
            None => template@,
        },
{
    match formatted {
        Some(s) => s,
        None => template.clone(),
    }
}

/// Fills `template` with `vars`, keeping the template when that fails.
pub fn fill(template: &String, vars: &StringMap<String>) -> (r: String)
    requires
        vars.wf(),
    ensures
        r@ == filled(template@, texts(vars@)),
{
    let formatted = strfmt_format(template.as_str(), vars);
    formatted_or_template(template, formatted)
}

/// A request to post a notification to ntfy.
pub struct NtfyRequest {
    /// The server to post to.
    pub url: String,
    /// The JSON body.
    pub body: NotificationBody,
    /// The bearer token to authenticate with.
    pub bearer: Option<String>,
}

/// Whether `req` is the request for target `c` with the variables `vars`.
pub open spec fn is_request_for(req: NtfyRequest, c: Config, vars: Map<Seq<char>, Seq<char>>) -> bool {
    &&& req.url == c.base
    &&& req.bearer == c.auth_token
    &&& req.body.topic == c.topic
    &&& req.body.message matches Some(m) && m@ == filled(c.message@, vars)
    &&& match c.title {
        None => req.body.title is None,
        Some(t) => req.body.title matches Some(x) && x@ == filled(t@, vars),
    }
    &&& req.body.tags@ == c.tags@
    &&& req.body.priority == c.priority
    &&& req.body.click == c.click
    &&& req.body.attach == c.attach
    &&& req.body.markdown == c.markdown
    &&& req.body.icon == c.icon
    &&& req.body.filename == c.filename
    &&& req.body.delay == c.delay
    &&& req.body.email == c.email
    &&& req.body.call == c.call
}

/// The targets of `configs` whose filter allows `n`, in order.
pub open spec fn targets(configs: Seq<Config>, n: Notification) -> Seq<Config>
    decreases configs.len(),
{
    if configs.len() == 0 {
        Seq::empty()
    } else {
        let rest = targets(configs.drop_last(), n);
        if configs.last().filter.allows_spec(&n) {
            rest.push(configs.last())
        } else {
            rest
        }
    }
}

/// Sends notifications to the configured ntfy targets.
pub struct NtfyNotificationProvider {
    /// The targets.
    pub config: Vec<Config>,
}

impl NtfyNotificationProvider {
    /// A provider for the given targets.
    pub fn init(config: Vec<Config>) -> (r: Self)
        ensures
            r.config == config,
    {
        NtfyNotificationProvider { config }
    }

    /// Takes new targets.
    pub fn reconfigure(&mut self, config: Vec<Config>)
        ensures
            final(self).config == config,
    {
        self.config = config;
    }

    fn request(c: &Config, vars: &StringMap<String>) -> (r: NtfyRequest)
        requires
            vars.wf(),
        ensures
            is_request_for(r, *c, texts(vars@)),
    {
        let mut body = NotificationBody::from_config(c);
        body.message = Some(fill(&c.message, vars));
        body.title = match &c.title {
            None => None,
            Some(t) => Some(fill(t, vars)),
        };
        NtfyRequest { url: c.base.clone(), body, bearer: clone_opt(&c.auth_token) }
    }

    /// The requests to send for `notification`: one per target whose filter allows
    /// it, in order, with title and message filled in from the template variables;
    /// `name` is the element's `name` attribute, and `shown_old` and `shown_new` are
    /// how the old and new attribute values of an edit are written.
    pub fn requests(&self, notification: &Notification, name: Option<&AttributeValue>, shown_old: &str, shown_new: &str) -> (r: Vec<NtfyRequest>)
        ensures
            ({
                let vars = format_values(*notification, match name { Some(v) => Some(*v), None => None }, shown_old@, shown_new@);
                let ts = targets(self.config@, *notification);
                &&& r@.len() == ts.len()
                &&& forall|k: int| 0 <= k < r@.len() ==> is_request_for(#[trigger] r@[k], ts[k], vars)
            }),
    {
        let vars = make_format_values(notification, name, shown_old, shown_new);
        let ghost cs = self.config@;
        let mut r: Vec<NtfyRequest> = Vec::new();
        let mut i: usize = 0;
        while i < self.config.len()
            invariant
                cs == self.config@,
                vars.wf(),
                i <= cs.len(),
                r@.len() == targets(cs.take(i as int), *notification).len(),
                forall|k: int| 0 <= k < r@.len() ==> is_request_for(#[trigger] r@[k], targets(cs.take(i as int), *notification)[k], texts(vars@)),
            decreases cs.len() - i,
        {
            proof {
                assert(cs.take(i + 1).drop_last() =~= cs.take(i as int));
                assert(cs.take(i + 1).last() == cs[i as int]);
            }
            let c = &self.config[i];
            if c.filter.allows(notification) {
                let req = Self::request(c, &vars);
                r.push(req);
            }
            i = i + 1;
        }
        proof {
            assert(cs.take(cs.len() as int) =~= cs);
        }
        r
    }
}

} // verus!
