//! Products, the modules they consist of, and the identity of an installation.

use vstd::prelude::*;
use vstd::string::*;

use crate::error::ProtocolError;
use crate::outside::{millis_since_epoch, parse_uuid, random_uuid_text, system_time};
use crate::text::{
    byte_len, chars_of, has_control, is_blank, split_text, str_eq,
};

verus! {

pub const PRODUCT_MANIFEST_SCHEMA_VERSION: u16 = 1;

pub const PRODUCT_INSTALLATION_SCHEMA_VERSION: u16 = 1;

/// A module that a product can consist of.
#[derive(Debug, Clone, Copy, PartialEq, Eq, PartialOrd, Ord, Structural)]
pub enum CapabilityId {
    Mouse,
    Transfer,
    Clipboard,
    Monitor,
    Privacy,
    Automate,
    Print,
}

/// When a module is started.
#[derive(Debug, Clone, Copy, PartialEq, Eq, Structural)]
pub enum ActivationPolicy {
    Always,
    OnDemand,
    OnInterest,
    Scheduled,
}

/// The activation policy of each module, in the order in which they were set.
#[derive(Debug, Clone, PartialEq, Eq)]
pub struct ActivationPolicies {
    entries: Vec<(CapabilityId, ActivationPolicy)>,
}

impl ActivationPolicies {
    /// The modules with their policies.
    pub closed spec fn view(&self) -> Seq<(CapabilityId, ActivationPolicy)> {
        self.entries@
    }

    pub fn new() -> (r: ActivationPolicies)
        ensures
            r@ == Seq::<(CapabilityId, ActivationPolicy)>::empty(),
    {
        ActivationPolicies { entries: Vec::new() }
    }

    pub fn clear(&mut self)
        ensures
            final(self)@ == Seq::<(CapabilityId, ActivationPolicy)>::empty(),
    {
        self.entries = Vec::new();
    }

    /// The policy of a module.
    pub fn get(&self, module: CapabilityId) -> (r: Option<ActivationPolicy>)
        ensures
            match r {
                Some(policy) => self@.contains((module, policy)),
                None => !has_policy(self@, module),
            },
    {
        let mut i: usize = 0;
        while i < self.entries.len()
            invariant
                i <= self.entries@.len(),
                forall|j: int| 0 <= j < i ==> (#[trigger] self.entries@[j]).0 != module,
            decreases self.entries@.len() - i,
        {
            if self.entries[i].0 == module {
                assert(self@[i as int] == (module, self.entries@[i as int].1));
                return Some(self.entries[i].1);
            }
            i += 1;
        }
        None
    }

    /// Sets the policy of a module.
    pub fn insert(&mut self, module: CapabilityId, policy: ActivationPolicy)
        ensures
            if has_policy(old(self)@, module) {
                exists|i: int|
                    0 <= i < old(self)@.len() && (#[trigger] old(self)@[i]).0 == module
                        && final(self)@ == old(self)@.update(i, (module, policy))
            } else {
                final(self)@ == old(self)@.push((module, policy))
            },
    {
        let mut i: usize = 0;
        while i < self.entries.len()
            invariant
                i <= self.entries@.len(),
                self.entries@ == old(self).entries@,
                forall|j: int| 0 <= j < i ==> (#[trigger] self.entries@[j]).0 != module,
            decreases self.entries@.len() - i,
        {
            if self.entries[i].0 == module {
                assert(old(self)@[i as int].0 == module);
                self.entries.set(i, (module, policy));
                assert(self@ == old(self)@.update(i as int, (module, policy)));
                return;
            }
            i += 1;
        }
        assert(!has_policy(old(self)@, module));
        self.entries.push((module, policy));
    }

    fn module_at(&self, i: usize) -> (r: CapabilityId)
        requires
            i < self@.len(),
        ensures
            r == self@[i as int].0,
    {
        self.entries[i].0
    }

    fn len(&self) -> (r: usize)
        ensures
            r == self@.len(),
    {
        self.entries.len()
    }
}

/// True when the module has a policy.
pub open spec fn has_policy(
    policies: Seq<(CapabilityId, ActivationPolicy)>,
    module: CapabilityId,
) -> bool {
    exists|i: int| 0 <= i < policies.len() && (#[trigger] policies[i]).0 == module
}

/// What a product is and which modules it consists of.
#[derive(Debug, Clone, PartialEq, Eq)]
pub struct ProductManifest {
    pub schema_version: u16,
    pub product_id: String,
    pub product_code: String,
    pub display_name: String,
    pub data_namespace: String,
    pub included_modules: Vec<CapabilityId>,
    pub enabled_ui_routes: Vec<String>,
    pub default_activation_policy: ActivationPolicies,
}

/// A [`ProductManifest`] as a mathematical value.
#[verifier::ext_equal]
pub struct ManifestView {
    pub schema_version: u16,
    pub product_id: Seq<char>,
    pub product_code: Seq<char>,
    pub display_name: Seq<char>,
    pub data_namespace: Seq<char>,
    pub included_modules: Seq<CapabilityId>,
    pub enabled_ui_routes: Seq<Seq<char>>,
    pub default_activation_policy: Seq<(CapabilityId, ActivationPolicy)>,
}

impl View for ProductManifest {
    type V = ManifestView;

    open spec fn view(&self) -> ManifestView {
        ManifestView {
            schema_version: self.schema_version,
            product_id: self.product_id@,
            product_code: self.product_code@,
            display_name: self.display_name@,
            data_namespace: self.data_namespace@,
            included_modules: self.included_modules@,
            enabled_ui_routes: crate::text::texts(self.enabled_ui_routes@),
            default_activation_policy: self.default_activation_policy@,
        }
    }
}

/// A lower-case letter, a digit or a hyphen.
pub open spec fn identifier_char(c: char) -> bool {
    'a' <= c <= 'z' || '0' <= c <= '9' || c == '-'
}

/// A letter or a digit.
pub open spec fn alphanumeric(c: char) -> bool {
    'a' <= c <= 'z' || 'A' <= c <= 'Z' || '0' <= c <= '9'
}

/// Lower-case letters, digits and hyphens, at least one, at most `maximum`,
/// with no hyphen at either end.
pub open spec fn short_identifier(s: Seq<char>, maximum: nat) -> bool {
    &&& 0 < s.len()
    &&& crate::text::utf8_len(s) <= maximum
    &&& forall|i: int| 0 <= i < s.len() ==> identifier_char(#[trigger] s[i])
    &&& alphanumeric(s[0])
    &&& alphanumeric(s.last())
}

/// Three or more identifiers joined by dots.
pub open spec fn product_identifier(s: Seq<char>) -> bool {
    let parts = crate::text::split(s, '.');
    &&& crate::text::utf8_len(s) <= 64
    &&& parts.len() >= 3
    &&& forall|i: int| 0 <= i < parts.len() ==> short_identifier(#[trigger] parts[i], 32)
}

/// True when exactly the modules have a policy.
pub open spec fn policies_match(
    modules: Seq<CapabilityId>,
    policies: Seq<(CapabilityId, ActivationPolicy)>,
) -> bool {
    &&& forall|i: int| 0 <= i < modules.len() ==> has_policy(policies, #[trigger] modules[i])
    &&& forall|i: int| 0 <= i < policies.len() ==> modules.contains((#[trigger] policies[i]).0)
}

/// True when every route is an identifier and none is listed twice.
pub open spec fn valid_routes(routes: Seq<Seq<char>>) -> bool {
    &&& routes.len() <= 32
    &&& forall|i: int| 0 <= i < routes.len() ==> short_identifier(#[trigger] routes[i], 48)
    &&& routes.no_duplicates()
}

/// What is wrong with a manifest, if anything.
pub open spec fn manifest_error(m: ManifestView) -> Option<Seq<char>> {
    if m.schema_version != PRODUCT_MANIFEST_SCHEMA_VERSION {
        Some("unsupported product manifest schema"@)
    } else if !product_identifier(m.product_id) {
        Some("invalid product id"@)
    } else if !short_identifier(m.product_code, 8) {
        Some("invalid product code"@)
    } else if crate::text::blank(m.display_name) || m.display_name.len() > 64
        || !crate::text::control_free(m.display_name) {
        Some("invalid product display name"@)
    } else if !short_identifier(m.data_namespace, 64) {
        Some("invalid data namespace"@)
    } else if m.included_modules.len() == 0 || m.included_modules.len() > 32 {
        Some("product must contain 1 to 32 modules"@)
    } else if !m.included_modules.no_duplicates() {
        Some("product modules must be unique"@)
    } else if !policies_match(m.included_modules, m.default_activation_policy) {
        Some("every product module must have exactly one activation policy"@)
    } else if !valid_routes(m.enabled_ui_routes) {
        Some("invalid or duplicate product UI route"@)
    } else {
        None
    }
}

/// The error text for a fault of a product.
pub open spec fn product_message(fault: Seq<char>) -> Seq<char> {
    "product context error: "@ + fault
}

fn product_error(message: &str) -> (r: ProtocolError)
    ensures
        r matches ProtocolError::Other(text) && text@ == product_message(message@),
{
    let mut text = "product context error: ".to_owned();
    text.append(message);
    ProtocolError::Other(text)
}

/// Tells whether a string is an identifier of at most `maximum` bytes.
pub fn valid_short_identifier(value: &str, maximum: usize) -> (r: bool)
    ensures
        r == short_identifier(value@, maximum as nat),
{
    let chars = chars_of(value);
    if chars.len() == 0 || byte_len(value) > maximum {
        return false;
    }
    let mut i: usize = 0;
    while i < chars.len()
        invariant
            i <= chars@.len(),
            chars@ == value@,
            forall|j: int| 0 <= j < i ==> identifier_char(#[trigger] value@[j]),
        decreases chars@.len() - i,
    {
        let c = chars[i];
        if !(('a' <= c && c <= 'z') || ('0' <= c && c <= '9') || c == '-') {
            assert(!identifier_char(value@[i as int]));
            return false;
        }
        i += 1;
    }
    let first = chars[0];
    let last = chars[chars.len() - 1];
    proof {
        assert(identifier_char(value@[0]));
        assert(identifier_char(value@[value@.len() - 1]));
    }
    first != '-' && last != '-'
}

/// Tells whether a string is a product id.
pub fn valid_product_id(value: &str) -> (r: bool)
    ensures
        r == product_identifier(value@),
{
    if byte_len(value) > 64 {
        return false;
    }
    let parts = split_text(value, '.');
    let ghost all = crate::text::split(value@, '.');
    proof {
        assert(all.len() == parts@.len());
    }
    if parts.len() < 3 {
        return false;
    }
    let mut i: usize = 0;
    while i < parts.len()
        invariant
            i <= parts@.len(),
            all == crate::text::texts(parts@),
            all == crate::text::split(value@, '.'),
            forall|j: int| 0 <= j < i ==> short_identifier(#[trigger] all[j], 32),
        decreases parts@.len() - i,
    {
        assert(all[i as int] == parts@[i as int]@);
        if !valid_short_identifier(parts[i].as_str(), 32) {
            assert(!short_identifier(all[i as int], 32));
            return false;
        }
        i += 1;
    }
    true
}

fn has_module(modules: &Vec<CapabilityId>, module: CapabilityId, end: usize) -> (r: bool)
    requires
        end <= modules@.len(),
    ensures
        r == modules@.take(end as int).contains(module),
{
    let mut i: usize = 0;
    while i < end
        invariant
            i <= end <= modules@.len(),
            forall|j: int| 0 <= j < i ==> #[trigger] modules@[j] != module,
        decreases end - i,
    {
        if modules[i] == module {
            assert(modules@.take(end as int)[i as int] == module);
            return true;
        }
        i += 1;
    }
    proof {
        let head = modules@.take(end as int);
        if head.contains(module) {
            let m = choose|m: int| 0 <= m < head.len() && head[m] == module;
            assert(modules@[m] == module);
        }
    }
    false
}

fn modules_unique(modules: &Vec<CapabilityId>) -> (r: bool)
    ensures
        r == modules@.no_duplicates(),
{
    let mut i: usize = 0;
    while i < modules.len()
        invariant
            i <= modules@.len(),
            forall|a: int, b: int| 0 <= a < b < i ==> modules@[a] != modules@[b],
        decreases modules@.len() - i,
    {
        let ghost head = modules@.take(i as int);
        if has_module(modules, modules[i], i) {
            proof {
                let m = choose|m: int| 0 <= m < head.len() && head[m] == modules@[i as int];
                assert(modules@[m] == modules@[i as int]);
            }
            return false;
        }
        proof {
            assert forall|a: int| 0 <= a < i implies modules@[a] != modules@[i as int] by {
                assert(head[a] == modules@[a]);
            }
        }
        i += 1;
    }
    true
}

fn policies_complete(modules: &Vec<CapabilityId>, policies: &ActivationPolicies) -> (r: bool)
    ensures
        r == policies_match(modules@, policies@),
{
    let mut i: usize = 0;
    while i < modules.len()
        invariant
            i <= modules@.len(),
            forall|j: int| 0 <= j < i ==> has_policy(policies@, #[trigger] modules@[j]),
        decreases modules@.len() - i,
    {
        let policy = policies.get(modules[i]);
        if policy.is_none() {
            assert(!has_policy(policies@, modules@[i as int]));
            return false;
        }
        proof {
            let found = (modules@[i as int], policy->0);
            let m = choose|m: int| 0 <= m < policies@.len() && policies@[m] == found;
            assert(policies@[m].0 == modules@[i as int]);
        }
        i += 1;
    }
    let mut k: usize = 0;
    while k < policies.len()
        invariant
            k <= policies@.len(),
            forall|j: int| 0 <= j < k ==> modules@.contains((#[trigger] policies@[j]).0),
        decreases policies@.len() - k,
    {
        let known = has_module(modules, policies.module_at(k), modules.len());
        proof {
            assert(modules@.take(modules@.len() as int) =~= modules@);
        }
        if !known {
            assert(!modules@.contains(policies@[k as int].0));
            return false;
        }
        k += 1;
    }
    true
}

fn routes_valid(routes: &Vec<String>) -> (r: bool)
    ensures
        r == valid_routes(crate::text::texts(routes@)),
{
    let ghost all = crate::text::texts(routes@);
    if routes.len() > 32 {
        return false;
    }
    let mut i: usize = 0;
    while i < routes.len()
        invariant
            i <= routes@.len(),
            all == crate::text::texts(routes@),
            forall|j: int| 0 <= j < i ==> short_identifier(#[trigger] all[j], 48),
            forall|a: int, b: int| 0 <= a < b < i ==> all[a] != all[b],
        decreases routes@.len() - i,
    {
        assert(all[i as int] == routes@[i as int]@);
        if !valid_short_identifier(routes[i].as_str(), 48) {
            assert(!short_identifier(all[i as int], 48));
            return false;
        }
        let mut k: usize = 0;
        while k < i
            invariant
                k <= i < routes@.len(),
                all == crate::text::texts(routes@),
                forall|a: int| 0 <= a < k ==> #[trigger] all[a] != all[i as int],
            decreases i - k,
        {
            assert(all[k as int] == routes@[k as int]@);
            assert(all[i as int] == routes@[i as int]@);
            if str_eq(routes[k].as_str(), routes[i].as_str()) {
                assert(all[k as int] == all[i as int]);
                return false;
            }
            k += 1;
        }
        i += 1;
    }
    true
}

/// The manifest of the whole suite.
pub open spec fn suite_manifest() -> ManifestView {
    ManifestView {
        schema_version: 1,
        product_id: "com.arcrelay.suite"@,
        product_code: "suite"@,
        display_name: "ArcRelay"@,
        data_namespace: "arcrelay"@,
        included_modules: seq![
            CapabilityId::Mouse,
            CapabilityId::Transfer,
            CapabilityId::Clipboard,
            CapabilityId::Monitor,
            CapabilityId::Privacy,
            CapabilityId::Automate,
            CapabilityId::Print,
        ],
        enabled_ui_routes: Seq::empty(),
        default_activation_policy: seq![
            (CapabilityId::Mouse, ActivationPolicy::OnDemand),
            (CapabilityId::Transfer, ActivationPolicy::OnDemand),
            (CapabilityId::Clipboard, ActivationPolicy::OnDemand),
            (CapabilityId::Monitor, ActivationPolicy::OnDemand),
            (CapabilityId::Privacy, ActivationPolicy::OnDemand),
            (CapabilityId::Automate, ActivationPolicy::OnDemand),
            (CapabilityId::Print, ActivationPolicy::OnDemand),
        ],
    }
}

/// The manifest of the transfer product.
pub open spec fn transfer_manifest() -> ManifestView {
    ManifestView {
        schema_version: 1,
        product_id: "com.arcrelay.transfer"@,
        product_code: "xfer"@,
        display_name: "ArcRelay Transfer"@,
        data_namespace: "arcrelay-transfer"@,
        included_modules: seq![CapabilityId::Transfer],
        enabled_ui_routes: Seq::empty(),
        default_activation_policy: seq![(CapabilityId::Transfer, ActivationPolicy::OnDemand)],
    }
}

fn on_demand(modules: &Vec<CapabilityId>) -> (r: ActivationPolicies)
    requires
        modules@.no_duplicates(),
    ensures
        r@ == modules@.map_values(|m: CapabilityId| (m, ActivationPolicy::OnDemand)),
{
    let mut policies = ActivationPolicies::new();
    let ghost all = modules@.map_values(|m: CapabilityId| (m, ActivationPolicy::OnDemand));
    let mut i: usize = 0;
    while i < modules.len()
        invariant
            i <= modules@.len(),
            modules@.no_duplicates(),
            all == modules@.map_values(|m: CapabilityId| (m, ActivationPolicy::OnDemand)),
            policies@ == all.take(i as int),
        decreases modules@.len() - i,
    {
        proof {
            if has_policy(policies@, modules@[i as int]) {
                let m = choose|m: int|
                    0 <= m < policies@.len() && (#[trigger] policies@[m]).0 == modules@[i as int];
                assert(all[m].0 == modules@[m]);
            }
            assert(all.take(i as int + 1) =~= all.take(i as int).push(all[i as int]));
        }
        policies.insert(modules[i], ActivationPolicy::OnDemand);
        i += 1;
    }
    assert(all.take(all.len() as int) =~= all);
    policies
}

impl ProductManifest {
    /// The whole suite.
    #[must_use]
    pub fn suite() -> (r: ProductManifest)
        ensures
            r@ == suite_manifest(),
    {
        let included_modules = vec![
            CapabilityId::Mouse,
            CapabilityId::Transfer,
            CapabilityId::Clipboard,
            CapabilityId::Monitor,
            CapabilityId::Privacy,
            CapabilityId::Automate,
            CapabilityId::Print,
        ];
        let policies = on_demand(&included_modules);
        let r = ProductManifest {
            schema_version: 1,
            product_id: "com.arcrelay.suite".to_owned(),
            product_code: "suite".to_owned(),
            display_name: "ArcRelay".to_owned(),
            data_namespace: "arcrelay".to_owned(),
            included_modules,
            enabled_ui_routes: Vec::new(),
            default_activation_policy: policies,
        };
        proof {
            assert(r@ =~= suite_manifest());
        }
        r
    }

    /// The transfer product.
    #[must_use]
    pub fn transfer() -> (r: ProductManifest)
        ensures
            r@ == transfer_manifest(),
    {
        let included_modules = vec![CapabilityId::Transfer];
        let policies = on_demand(&included_modules);
        let r = ProductManifest {
            schema_version: 1,
            product_id: "com.arcrelay.transfer".to_owned(),
            product_code: "xfer".to_owned(),
            display_name: "ArcRelay Transfer".to_owned(),
            data_namespace: "arcrelay-transfer".to_owned(),
            included_modules,
            enabled_ui_routes: Vec::new(),
            default_activation_policy: policies,
        };
        proof {
            assert(r@ =~= transfer_manifest());
        }
        r
    }

    /// Checks a manifest.
    pub fn validate(&self) -> (r: Result<(), ProtocolError>)
        ensures
            match manifest_error(self@) {
                None => r is Ok,
                Some(fault) => crate::error::fails_with(r, product_message(fault)),
            },
    {
        if self.schema_version != PRODUCT_MANIFEST_SCHEMA_VERSION {
            return Err(product_error("unsupported product manifest schema"));
        }
        if !valid_product_id(self.product_id.as_str()) {
            return Err(product_error("invalid product id"));
        }
        if !valid_short_identifier(self.product_code.as_str(), 8) {
            return Err(product_error("invalid product code"));
        }
        let name = chars_of(self.display_name.as_str());
        if is_blank(self.display_name.as_str()) || name.len() > 64 || has_control(
            self.display_name.as_str(),
        ) {
            return Err(product_error("invalid product display name"));
        }
        if !valid_short_identifier(self.data_namespace.as_str(), 64) {
            return Err(product_error("invalid data namespace"));
        }
        if self.included_modules.len() == 0 || self.included_modules.len() > 32 {
            return Err(product_error("product must contain 1 to 32 modules"));
        }
        if !modules_unique(&self.included_modules) {
            return Err(product_error("product modules must be unique"));
        }
        if !policies_complete(&self.included_modules, &self.default_activation_policy) {
            return Err(
                product_error("every product module must have exactly one activation policy"),
            );
        }
        if !routes_valid(&self.enabled_ui_routes) {
            return Err(product_error("invalid or duplicate product UI route"));
        }
        Ok(())
    }

    /// Tells whether the product has a module.
    #[must_use]
    pub fn supports(&self, capability: CapabilityId) -> (r: bool)
        ensures
            r == self@.included_modules.contains(capability),
    {
        proof {
            assert(self.included_modules@.take(self.included_modules@.len() as int)
                =~= self.included_modules@);
        }
        has_module(&self.included_modules, capability, self.included_modules.len())
    }

    /// The id of the built-in product with this code.
    #[must_use]
    pub fn product_id_for_code(product_code: &str) -> (r: Option<&'static str>)
        ensures
            match r {
                Some(id) => id_for_code(product_code@) == Some(id@),
                None => id_for_code(product_code@) is None,
            },
    {
        if str_eq(product_code, "suite") {
            Some("com.arcrelay.suite")
        } else if str_eq(product_code, "xfer") {
            Some("com.arcrelay.transfer")
        } else {
            None
        }
    }

    /// The built-in product with this id.
    #[must_use]
    pub fn for_product_id(product_id: &str) -> (r: Option<ProductManifest>)
        ensures
            match r {
                Some(manifest) => manifest_for_id(product_id@) == Some(manifest@),
                None => manifest_for_id(product_id@) is None,
            },
    {
        if str_eq(product_id, "com.arcrelay.suite") {
            Some(ProductManifest::suite())
        } else if str_eq(product_id, "com.arcrelay.transfer") {
            Some(ProductManifest::transfer())
        } else {
            None
        }
    }
}

/// The ids of the built-in products by their codes.
pub open spec fn id_for_code(code: Seq<char>) -> Option<Seq<char>> {
    if code == "suite"@ {
        Some("com.arcrelay.suite"@)
    } else if code == "xfer"@ {
        Some("com.arcrelay.transfer"@)
    } else {
        None
    }
}

/// The built-in products by their ids.
pub open spec fn manifest_for_id(id: Seq<char>) -> Option<ManifestView> {
    if id == "com.arcrelay.suite"@ {
        Some(suite_manifest())
    } else if id == "com.arcrelay.transfer"@ {
        Some(transfer_manifest())
    } else {
        None
    }
}

/// Names an installation of a product.
#[derive(Debug, Clone, PartialEq, Eq)]
pub struct ProductInstallation {
    pub schema_version: u16,
    pub product_id: String,
    pub installation_id: String,
    pub created_at_ms: i64,
}

/// True when the text is that of a random UUID.
pub open spec fn random_uuid(text: Seq<char>) -> bool {
    crate::outside::uuid_value(text) is Some && crate::outside::uuid_is_random(
        crate::outside::uuid_value(text)->0,
    )
}

/// True when an installation identity is one of this product.
pub open spec fn identity_matches(i: ProductInstallation, m: ManifestView) -> bool {
    &&& i.schema_version == PRODUCT_INSTALLATION_SCHEMA_VERSION
    &&& i.product_id@ == m.product_id
    &&& random_uuid(i.installation_id@)
    &&& i.created_at_ms > 0
}

/// True when an identity is a new one of this product.
pub open spec fn new_identity(i: ProductInstallation, m: ManifestView) -> bool {
    &&& i.schema_version == PRODUCT_INSTALLATION_SCHEMA_VERSION
    &&& i.product_id@ == m.product_id
    &&& random_uuid(i.installation_id@)
    &&& i.created_at_ms >= 0
}

/// The text of the refusal of an identity that is not one of this product.
pub open spec fn mismatch_message() -> Seq<char> {
    product_message("product installation identity does not match this product"@)
}

/// Says which identity an installation starts with, given the one that its store
/// holds: that one, if it is of this product, and a new one where there is none.
pub open spec fn loads(
    r: Result<ProductInstallation, ProtocolError>,
    stored: Option<ProductInstallation>,
    m: ManifestView,
) -> bool {
    match manifest_error(m) {
        Some(fault) => crate::error::fails_with(r, product_message(fault)),
        None => match stored {
            Some(identity) => if identity_matches(identity, m) {
                r == Ok::<ProductInstallation, ProtocolError>(identity)
            } else {
                crate::error::fails_with(r, mismatch_message())
            },
            None => r is Ok && new_identity(r->Ok_0, m),
        },
    }
}

/// The identity that an installation started with once is the one it starts with
/// ever after. It has to be dated after the start of 1970, as a new identity is
/// unless the clock stands at or before that moment.
pub proof fn lemma_identity_is_kept(
    stored: Option<ProductInstallation>,
    m: ManifestView,
    first: Result<ProductInstallation, ProtocolError>,
    again: Result<ProductInstallation, ProtocolError>,
)
    requires
        loads(first, stored, m),
        first is Ok,
        first->Ok_0.created_at_ms > 0,
        loads(again, Some(first->Ok_0), m),
    ensures
        again == first,
{
}

/// The identity of one product never serves another: a start of the other finds
/// it in the store and is refused.
pub proof fn lemma_identity_stays_with_its_product(
    stored: Option<ProductInstallation>,
    m: ManifestView,
    other: ManifestView,
    first: Result<ProductInstallation, ProtocolError>,
    again: Result<ProductInstallation, ProtocolError>,
)
    requires
        loads(first, stored, m),
        first is Ok,
        manifest_error(other) is None,
        other.product_id != m.product_id,
        loads(again, Some(first->Ok_0), other),
    ensures
        crate::error::fails_with(again, mismatch_message()),
{
}

/// Tells whether a text is that of a random UUID.
pub fn is_uuid_v4(value: &str) -> (r: bool)
    ensures
        r == random_uuid(value@),
{
    match parse_uuid(value) {
        Some(uuid) => (uuid >> 76) & 0xf == 4,
        None => false,
    }
}

/// A count of milliseconds, as far as a signed number can hold it.
pub fn bounded_millis(millis: u128) -> (r: i64)
    ensures
        r == if millis <= i64::MAX {
            millis as int
        } else {
            i64::MAX as int
        },
{
    if millis <= i64::MAX as u128 {
        millis as i64
    } else {
        i64::MAX
    }
}

/// The milliseconds since the start of 1970; a clock before that counts as zero.
pub fn now_ms() -> (r: i64)
    ensures
        r >= 0,
{
    match millis_since_epoch(&system_time()) {
        Some(millis) => bounded_millis(millis),
        None => 0,
    }
}

impl ProductInstallation {
    /// An identity with the given parts.
    pub fn with_identity(
        manifest: &ProductManifest,
        installation_id: String,
        created_at_ms: i64,
    ) -> (r: Result<ProductInstallation, ProtocolError>)
        ensures
            match manifest_error(manifest@) {
                Some(fault) => crate::error::fails_with(r, product_message(fault)),
                None => r is Ok && r->Ok_0.schema_version == PRODUCT_INSTALLATION_SCHEMA_VERSION
                    && r->Ok_0.product_id@ == manifest.product_id@ && r->Ok_0.installation_id@
                    == installation_id@ && r->Ok_0.created_at_ms == created_at_ms,
            },
    {
        match manifest.validate() {
            Err(error) => {
                return Err(error);
            },
            Ok(()) => {},
        }
        Ok(
            ProductInstallation {
                schema_version: PRODUCT_INSTALLATION_SCHEMA_VERSION,
                product_id: manifest.product_id.clone(),
                installation_id,
                created_at_ms,
            },
        )
    }

    /// A new identity for an installation of the product.
    pub fn create(manifest: &ProductManifest) -> (r: Result<ProductInstallation, ProtocolError>)
        ensures
            match manifest_error(manifest@) {
                Some(fault) => crate::error::fails_with(r, product_message(fault)),
                None => r is Ok && new_identity(r->Ok_0, manifest@),
            },
    {
        ProductInstallation::with_identity(manifest, random_uuid_text(), now_ms())
    }

    /// Checks an identity that was read back.
    pub fn check(&self, manifest: &ProductManifest) -> (r: Result<(), ProtocolError>)
        ensures
            if identity_matches(*self, manifest@) {
                r is Ok
            } else {
                crate::error::fails_with(r, mismatch_message())
            },
    {
        if self.schema_version != PRODUCT_INSTALLATION_SCHEMA_VERSION || !str_eq(
            self.product_id.as_str(),
            manifest.product_id.as_str(),
        ) || !is_uuid_v4(self.installation_id.as_str()) || self.created_at_ms <= 0 {
            return Err(product_error("product installation identity does not match this product"));
        }
        Ok(())
    }

    /// The identity that an installation starts with, given the one that its store
    /// holds. A new one is for the caller to store.
    pub fn load_or_create(
        stored: Option<ProductInstallation>,
        manifest: &ProductManifest,
    ) -> (r: Result<ProductInstallation, ProtocolError>)
        ensures
            loads(r, stored, manifest@),
    {
        match manifest.validate() {
            Err(error) => {
                return Err(error);
            },
            Ok(()) => {},
        }
        match stored {
            Some(installation) => match installation.check(manifest) {
                Ok(()) => Ok(installation),
                Err(error) => Err(error),
            },
            None => ProductInstallation::create(manifest),
        }
    }
}

/// Texts of identifier characters are as long in bytes as in characters.
proof fn lemma_identifier_len(s: Seq<char>)
    requires
        forall|i: int| 0 <= i < s.len() ==> identifier_char(#[trigger] s[i]) || s[i] == '.',
    ensures
        crate::text::utf8_len(s) == s.len(),
    decreases s.len(),
{
    if s.len() > 0 {
        let rest = s.drop_last();
        assert forall|i: int| 0 <= i < rest.len() implies identifier_char(#[trigger] rest[i])
            || rest[i] == '.' by {
            assert(rest[i] == s[i]);
        }
        lemma_identifier_len(rest);
        assert(s =~= rest.push(s.last()));
        assert(identifier_char(s[s.len() - 1]) || s[s.len() - 1] == '.');
        crate::text::lemma_utf8_len_push(rest, s.last());
    }
}

proof fn lemma_short(s: Seq<char>, maximum: nat)
    requires
        0 < s.len() <= maximum,
        forall|i: int| 0 <= i < s.len() ==> identifier_char(#[trigger] s[i]),
        s[0] != '-',
        s.last() != '-',
    ensures
        short_identifier(s, maximum),
{
    lemma_identifier_len(s);
    assert(identifier_char(s[0]));
    assert(identifier_char(s[s.len() - 1]));
}

proof fn lemma_dotted(a: Seq<char>, b: Seq<char>, c: Seq<char>, s: Seq<char>)
    requires
        short_identifier(a, 32),
        short_identifier(b, 32),
        short_identifier(c, 32),
        s == a.push('.') + b.push('.') + c,
        s.len() <= 64,
    ensures
        product_identifier(s),
{
    assert forall|i: int| 0 <= i < a.len() implies a[i] != '.' by {
        assert(identifier_char(a[i]));
    }
    assert forall|i: int| 0 <= i < b.len() implies b[i] != '.' by {
        assert(identifier_char(b[i]));
    }
    assert forall|i: int| 0 <= i < c.len() implies c[i] != '.' by {
        assert(identifier_char(c[i]));
    }
    crate::text::lemma_split_plain(a, '.');
    crate::text::lemma_split_tail(a, b, '.');
    crate::text::lemma_split_tail(a.push('.') + b, c, '.');
    assert((a.push('.') + b).push('.') + c =~= s);
    assert forall|i: int| 0 <= i < s.len() implies identifier_char(#[trigger] s[i]) || s[i] == '.' by {
        if i < a.len() {
            assert(s[i] == a[i]);
        } else if i == a.len() {
        } else if i < a.len() + 1 + b.len() {
            assert(s[i] == b[i - a.len() - 1]);
        } else if i == a.len() + 1 + b.len() {
        } else {
            assert(s[i] == c[i - a.len() - b.len() - 2]);
        }
    }
    lemma_identifier_len(s);
    let parts = crate::text::split(s, '.');
    assert(parts =~= seq![a, b, c]);
}

/// Every built-in product has a valid manifest, its code leads to its id, and
/// its id leads back to it.
pub proof fn lemma_built_in_products(id: Seq<char>)
    requires
        manifest_for_id(id) is Some,
    ensures
        manifest_error(manifest_for_id(id)->0) is None,
        manifest_for_id(id)->0.product_id == id,
        id_for_code(manifest_for_id(id)->0.product_code) == Some(id),
{
    reveal_strlit("com");
    reveal_strlit("arcrelay");
    reveal_strlit("suite");
    reveal_strlit("transfer");
    reveal_strlit("xfer");
    reveal_strlit("com.arcrelay.suite");
    reveal_strlit("com.arcrelay.transfer");
    reveal_strlit("ArcRelay");
    reveal_strlit("ArcRelay Transfer");
    reveal_strlit("arcrelay-transfer");
    lemma_short("com"@, 32);
    lemma_short("arcrelay"@, 32);
    lemma_short("arcrelay"@, 64);
    lemma_short("suite"@, 32);
    lemma_short("suite"@, 8);
    lemma_short("transfer"@, 32);
    lemma_short("xfer"@, 8);
    lemma_short("arcrelay-transfer"@, 64);
    assert("com.arcrelay.suite"@ =~= "com"@.push('.') + "arcrelay"@.push('.') + "suite"@);
    lemma_dotted("com"@, "arcrelay"@, "suite"@, "com.arcrelay.suite"@);
    assert("com.arcrelay.transfer"@ =~= "com"@.push('.') + "arcrelay"@.push('.') + "transfer"@);
    lemma_dotted("com"@, "arcrelay"@, "transfer"@, "com.arcrelay.transfer"@);
    assert("suite"@.len() != "xfer"@.len());
    let m = manifest_for_id(id)->0;
    assert(!crate::text::is_whitespace(m.display_name[0]));
    assert forall|i: int| 0 <= i < m.included_modules.len() implies has_policy(
        m.default_activation_policy,
        #[trigger] m.included_modules[i],
    ) by {
        assert(m.default_activation_policy[i].0 == m.included_modules[i]);
    }
    assert forall|i: int| 0 <= i < m.default_activation_policy.len() implies m.included_modules.contains(
        (#[trigger] m.default_activation_policy[i]).0,
    ) by {
        assert(m.included_modules[i] == m.default_activation_policy[i].0);
    }
}

/// The identity of one product is never that of another.
pub proof fn lemma_identity_bound_to_product(
    i: ProductInstallation,
    a: ManifestView,
    b: ManifestView,
)
    requires
        identity_matches(i, a),
        a.product_id != b.product_id,
    ensures
        !identity_matches(i, b),
{
}

/// What a valid manifest is: of the schema that is known, with proper names, one to
/// 32 modules that are not repeated and each with a policy, and proper routes.
pub proof fn lemma_valid_manifests(m: ManifestView, i: int)
    requires
        manifest_error(m) is None,
    ensures
        m.schema_version == 1,
        product_identifier(m.product_id),
        short_identifier(m.product_code, 8),
        short_identifier(m.data_namespace, 64),
        !crate::text::blank(m.display_name) && m.display_name.len() <= 64,
        1 <= m.included_modules.len() <= 32,
        m.included_modules.no_duplicates(),
        0 <= i < m.included_modules.len() ==> exists|k: int|
            0 <= k < m.default_activation_policy.len() && (
            #[trigger] m.default_activation_policy[k]).0 == m.included_modules[i],
        0 <= i < m.default_activation_policy.len() ==> m.included_modules.contains(
            m.default_activation_policy[i].0,
        ),
        m.enabled_ui_routes.len() <= 32,
        m.enabled_ui_routes.no_duplicates(),
{
    if 0 <= i < m.included_modules.len() {
        assert(has_policy(m.default_activation_policy, m.included_modules[i]));
    }
}

/// An identity that serves a product is of that product, was drawn at random and
/// has a date.
pub proof fn lemma_identities_are_of_their_product(i: ProductInstallation, m: ManifestView)
    ensures
        identity_matches(i, m) <==> i.schema_version == 1 && i.product_id@ == m.product_id
            && random_uuid(i.installation_id@) && i.created_at_ms > 0,
        new_identity(i, m) && i.created_at_ms > 0 ==> identity_matches(i, m),
{
}

/// The built-in products are what they are called: the suite has every module, the
/// transfer product only that of transfers, and each module starts on demand.
pub proof fn lemma_what_the_built_in_products_hold(module: CapabilityId, i: int)
    ensures
        suite_manifest().included_modules.contains(module),
        transfer_manifest().included_modules.contains(module) <==> module is Transfer,
        0 <= i < suite_manifest().default_activation_policy.len()
            ==> suite_manifest().default_activation_policy[i].1 is OnDemand
            && suite_manifest().default_activation_policy[i].0
            == suite_manifest().included_modules[i],
        0 <= i < transfer_manifest().default_activation_policy.len()
            ==> transfer_manifest().default_activation_policy[i].1 is OnDemand,
{
    let all = suite_manifest().included_modules;
    assert(all[0] is Mouse && all[1] is Transfer && all[2] is Clipboard && all[3] is Monitor
        && all[4] is Privacy && all[5] is Automate && all[6] is Print);
    match module {
        CapabilityId::Mouse => assert(all[0] == module),
        CapabilityId::Transfer => assert(all[1] == module),
        CapabilityId::Clipboard => assert(all[2] == module),
        CapabilityId::Monitor => assert(all[3] == module),
        CapabilityId::Privacy => assert(all[4] == module),
        CapabilityId::Automate => assert(all[5] == module),
        CapabilityId::Print => assert(all[6] == module),
    }
    assert(transfer_manifest().included_modules[0] is Transfer);
}

/// A product has at most 32 routes, each with a proper name of its own.
pub proof fn lemma_proper_routes(routes: Seq<Seq<char>>, i: int, j: int)
    requires
        0 <= i < j < routes.len(),
    ensures
        valid_routes(routes) ==> routes.len() <= 32 && routes[i] != routes[j] && short_identifier(
            routes[i],
            48,
        ),
        routes.len() <= 32 && routes.no_duplicates() && (forall|k: int|
            0 <= k < routes.len() ==> short_identifier(#[trigger] routes[k], 48)) ==> valid_routes(
            routes,
        ),
{
}

} // verus!
