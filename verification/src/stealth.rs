//! The baseline stealth profile: launch flags and the script that is run in pages.
use vstd::prelude::*;
use crate::text;

verus! {

/// The user agent that a profile without one shows.
pub const DEFAULT_USER_AGENT: &'static str = "Mozilla/5.0 (X11; Linux x86_64) AppleWebKit/537.36 (KHTML, like Gecko) Chrome/124.0.0.0 Safari/537.36";

/// How a browser is disguised.
#[derive(Clone, Debug)]
pub struct StealthProfile {
    pub enabled: bool,
    pub user_agent: Option<String>,
    pub window_width: u32,
    pub window_height: u32,
}

/// A script to run in pages.
#[derive(Clone, Copy, Debug)]
pub struct StealthScript {
    pub name: &'static str,
    pub source: &'static str,
}

/// The user agent that a profile shows, before the marker of headless mode is taken out.
pub open spec fn chosen_user_agent(user_agent: Option<Seq<char>>) -> Seq<char> {
    match user_agent {
        Some(given) => given,
        None => DEFAULT_USER_AGENT@,
    }
}

/// A user agent in which each marker of headless mode has become a plain browser name.
pub open spec fn unmarked_once(user_agent: Seq<char>) -> Seq<char> {
    text::replaced(user_agent, "HeadlessChrome"@, "Chrome"@)
}

proof fn lemma_unmarking_shortens(user_agent: Seq<char>)
    requires
        text::contains_text(user_agent, "HeadlessChrome"@),
    ensures
        unmarked_once(user_agent).len() < user_agent.len(),
{
    reveal_strlit("HeadlessChrome");
    reveal_strlit("Chrome");
    let at = choose|at: int| text::occurs_at(user_agent, "HeadlessChrome"@, at);
    text::lemma_replacing_shortens(user_agent, "HeadlessChrome"@, "Chrome"@, 0, at);
}

/// A user agent without the marker of headless mode, also where the marker comes about
/// only when another is taken out.
pub open spec fn unmarked(user_agent: Seq<char>) -> Seq<char>
    decreases user_agent.len(),
    via unmarking_ends
{
    if text::contains_text(user_agent, "HeadlessChrome"@) {
        unmarked(unmarked_once(user_agent))
    } else {
        user_agent
    }
}

#[via_fn]
proof fn unmarking_ends(user_agent: Seq<char>) {
    if text::contains_text(user_agent, "HeadlessChrome"@) {
        lemma_unmarking_shortens(user_agent);
    }
}

/// A user agent without the marker of headless mode.
pub fn strip_marker(user_agent: &str) -> (res: String)
    ensures
        res@ == unmarked(user_agent@),
{
    let mut shown = user_agent.to_owned();
    proof {
        reveal_strlit("HeadlessChrome");
    }
    while text::contains(shown.as_str(), "HeadlessChrome")
        invariant
            "HeadlessChrome"@.len() > 0,
            unmarked(shown@) == unmarked(user_agent@),
        decreases shown@.len(),
    {
        proof {
            lemma_unmarking_shortens(shown@);
        }
        shown = text::replace(shown.as_str(), "HeadlessChrome", "Chrome");
    }
    shown
}

impl StealthProfile {
    /// The launch flags that the profile adds.
    pub open spec fn flags(self) -> Seq<Seq<char>> {
        if self.enabled {
            seq![
                "--disable-blink-features=AutomationControlled"@,
                "--window-size="@ + text::decimal(self.window_width as nat) + ","@ + text::decimal(
                    self.window_height as nat,
                ),
                "--user-agent="@ + unmarked(chosen_user_agent(text::opt_text(self.user_agent))),
            ]
        } else {
            Seq::empty()
        }
    }

    /// A profile with the default window size.
    pub fn new(enabled: bool, user_agent: Option<String>) -> (res: StealthProfile)
        ensures
            res.enabled == enabled,
            res.user_agent == user_agent,
            res.window_width == 1365,
            res.window_height == 768,
    {
        StealthProfile { enabled, user_agent, window_width: 1365, window_height: 768 }
    }

    /// The launch flags that the profile adds: none where it is not enabled.
    pub fn chrome_args(&self) -> (res: Vec<String>)
        ensures
            text::texts(res@) == self.flags(),
    {
        let mut args: Vec<String> = Vec::new();
        if !self.enabled {
            assert(text::texts(args@) =~= self.flags());
            return args;
        }
        args.push("--disable-blink-features=AutomationControlled".to_owned());

        let mut size = "--window-size=".to_owned();
        text::push_decimal(&mut size, self.window_width as u64);
        size.append(",");
        text::push_decimal(&mut size, self.window_height as u64);
        args.push(size);

        let user_agent = match &self.user_agent {
            Some(given) => given.as_str(),
            None => DEFAULT_USER_AGENT,
        };
        let mut agent = "--user-agent=".to_owned();
        agent.append(strip_marker(user_agent).as_str());
        args.push(agent);
        assert(text::texts(args@) =~= self.flags());
        args
    }
}

proof fn lemma_other_char(flag: Seq<char>, at: int)
    requires
        forall|i: int| 0 <= i < flag.len() ==> #[trigger] flag[i] != 'H',
    ensures
        !text::occurs_at(flag, "HeadlessChrome"@, at),
{
    reveal_strlit("HeadlessChrome");
    if text::occurs_at(flag, "HeadlessChrome"@, at) {
        assert(flag.subrange(at, at + 14)[0] == flag[at]);
    }
}

/// No user agent that is shown bears the marker of headless mode, and one that did not
/// bear it is shown as it was given.
pub proof fn law_user_agent_is_unmarked(user_agent: Seq<char>)
    ensures
        !text::contains_text(unmarked(user_agent), "HeadlessChrome"@),
        !text::contains_text(user_agent, "HeadlessChrome"@) ==> unmarked(user_agent) == user_agent,
    decreases user_agent.len(),
{
    if text::contains_text(user_agent, "HeadlessChrome"@) {
        lemma_unmarking_shortens(user_agent);
        law_user_agent_is_unmarked(unmarked_once(user_agent));
    }
}

/// No flag of a profile bears the marker of headless mode, whatever user agent the
/// profile was given.
pub proof fn law_flags_are_unmarked(profile: StealthProfile, i: int)
    requires
        0 <= i < profile.flags().len(),
    ensures
        !text::contains_text(profile.flags()[i], "HeadlessChrome"@),
{
    let flag = profile.flags()[i];
    reveal_strlit("--disable-blink-features=AutomationControlled");
    reveal_strlit("--window-size=");
    reveal_strlit(",");
    reveal_strlit("--user-agent=");
    reveal_strlit("HeadlessChrome");
    let width = text::decimal(profile.window_width as nat);
    let height = text::decimal(profile.window_height as nat);
    text::lemma_decimal_digits(profile.window_width as nat);
    text::lemma_decimal_digits(profile.window_height as nat);
    let shown = unmarked(chosen_user_agent(text::opt_text(profile.user_agent)));
    law_user_agent_is_unmarked(chosen_user_agent(text::opt_text(profile.user_agent)));
    assert forall|at: int| !text::occurs_at(flag, "HeadlessChrome"@, at) by {
        if i == 0 {
            lemma_other_char(flag, at);
        } else if i == 1 {
            assert forall|j: int| 0 <= j < width.len() implies width[j] != 'H' by {
                assert(text::is_digit(width[j]));
            }
            assert forall|j: int| 0 <= j < height.len() implies height[j] != 'H' by {
                assert(text::is_digit(height[j]));
            }
            lemma_other_char(flag, at);
        } else if text::occurs_at(flag, "HeadlessChrome"@, at) {
            let start = "--user-agent="@.len() as int;
            assert(flag.subrange(at, at + 14)[0] == flag[at]);
            if at < start {
                assert(flag[at] == "--user-agent="@[at]);
            } else {
                assert(shown.subrange(at - start, at - start + 14) =~= flag.subrange(at, at + 14));
                assert(text::occurs_at(shown, "HeadlessChrome"@, at - start));
            }
        }
    }
}

/// The scripts to run in every page: one.
pub fn baseline_scripts() -> (res: &'static [StealthScript])
    ensures
        res@.len() == 1,
        res@[0].name@ == "baseline-navigator-and-webgl"@,
        res@[0].source@ == BASELINE_SCRIPT@,
{
    &[StealthScript { name: "baseline-navigator-and-webgl", source: BASELINE_SCRIPT }]
}

/// Hides the marks of automation in the navigator and in WebGL.
pub const BASELINE_SCRIPT: &'static str = r#"
(() => {
  const defineGetter = (object, property, getter) => {
    try {
      Object.defineProperty(object, property, { get: getter, configurable: true });
    } catch (_) {}
  };

  defineGetter(Navigator.prototype, 'webdriver', () => undefined);
  defineGetter(navigator, 'webdriver', () => undefined);
  defineGetter(Navigator.prototype, 'languages', () => ['en-US', 'en']);
  defineGetter(navigator, 'languages', () => ['en-US', 'en']);
  defineGetter(Navigator.prototype, 'plugins', () => [
    { name: 'Chrome PDF Plugin', filename: 'internal-pdf-viewer', description: 'Portable Document Format' },
    { name: 'Chrome PDF Viewer', filename: 'mhjfbmdgcfjbbpaeojofohoefgiehjai', description: '' },
    { name: 'Native Client', filename: 'internal-nacl-plugin', description: '' }
  ]);
  defineGetter(navigator, 'plugins', () => [
    { name: 'Chrome PDF Plugin', filename: 'internal-pdf-viewer', description: 'Portable Document Format' },
    { name: 'Chrome PDF Viewer', filename: 'mhjfbmdgcfjbbpaeojofohoefgiehjai', description: '' },
    { name: 'Native Client', filename: 'internal-nacl-plugin', description: '' }
  ]);
  defineGetter(Navigator.prototype, 'mimeTypes', () => [
    { type: 'application/pdf', suffixes: 'pdf', description: 'Portable Document Format' }
  ]);
  defineGetter(navigator, 'mimeTypes', () => [
    { type: 'application/pdf', suffixes: 'pdf', description: 'Portable Document Format' }
  ]);

  try {
    if (!window.chrome) {
      Object.defineProperty(window, 'chrome', {
        value: { runtime: {} },
        configurable: true
      });
    } else if (!window.chrome.runtime) {
      Object.defineProperty(window.chrome, 'runtime', { value: {}, configurable: true });
    }
  } catch (_) {}

  const originalQuery = window.navigator.permissions && window.navigator.permissions.query;
  if (originalQuery) {
    window.navigator.permissions.query = (parameters) => {
      if (parameters && parameters.name === 'notifications') {
        return Promise.resolve({ state: Notification.permission });
      }
      return originalQuery.call(window.navigator.permissions, parameters);
    };
  }

  const patchWebGL = (prototype) => {
    if (!prototype || !prototype.getParameter) return;
    const originalGetParameter = prototype.getParameter;
    prototype.getParameter = function(parameter) {
      if (parameter === 37445) return 'Intel Inc.';
      if (parameter === 37446) return 'Intel Iris OpenGL Engine';
      return originalGetParameter.call(this, parameter);
    };
  };

  patchWebGL(window.WebGLRenderingContext && window.WebGLRenderingContext.prototype);
  patchWebGL(window.WebGL2RenderingContext && WebGL2RenderingContext.prototype);
})();
"#;

/// A disguise is three flags, or none where it is off: the mark of automation is taken
/// away, and the window and the user agent are given.
pub proof fn law_disguise_is_three_flags(profile: StealthProfile)
    ensures
        !profile.enabled ==> profile.flags().len() == 0,
        profile.enabled ==> {
            &&& profile.flags().len() == 3
            &&& profile.flags()[0] == "--disable-blink-features=AutomationControlled"@
            &&& profile.flags()[1] == "--window-size="@ + text::decimal(
                profile.window_width as nat,
            ) + ","@ + text::decimal(profile.window_height as nat)
            &&& profile.user_agent is Some && !text::contains_text(
                profile.user_agent->Some_0@,
                "HeadlessChrome"@,
            ) ==> profile.flags()[2] == "--user-agent="@ + profile.user_agent->Some_0@
            &&& profile.user_agent is None ==> profile.flags()[2] == "--user-agent="@ + unmarked(
                DEFAULT_USER_AGENT@,
            )
        },
{
    if profile.user_agent is Some {
        law_user_agent_is_unmarked(profile.user_agent->Some_0@);
    }
}

/// The name of the headless browser becomes that of the browser, and what stands around it
/// stays.
pub proof fn law_headless_becomes_plain(head: Seq<char>, tail: Seq<char>)
    requires
        forall|at: int|
            0 <= at < head.len() ==> !#[trigger] text::occurs_at(
                head + "HeadlessChrome"@ + tail,
                "HeadlessChrome"@,
                at,
            ),
        !text::contains_text(tail, "HeadlessChrome"@),
        !text::contains_text(head + "Chrome"@ + tail, "HeadlessChrome"@),
    ensures
        unmarked(head + "HeadlessChrome"@ + tail) == head + "Chrome"@ + tail,
{
    let whole = head + "HeadlessChrome"@ + tail;
    reveal_strlit("HeadlessChrome");
    let mark = "HeadlessChrome"@;
    text::law_parts_are_replaced(head, mark, "Chrome"@, tail, tail);
    assert(whole.subrange(head.len() as int, (head.len() + mark.len()) as int) =~= mark);
    assert(text::occurs_at(whole, mark, head.len() as int));
    assert(unmarked_once(whole) == head + "Chrome"@ + tail);
    law_user_agent_is_unmarked(head + "Chrome"@ + tail);
}

}
