use vstd::prelude::*;

verus! {

/// One blockchain being indexed.
pub struct Domain {
    pub id: u32,
    pub name: String,
}

impl Clone for Domain {
    fn clone(&self) -> (r: Self)
        ensures
            r == *self,
    {
        Domain { id: self.id, name: self.name.clone() }
    }
}

/// Per-chain indexing parameters: first block, batch size and pacing.
#[derive(Clone, Copy, Debug, PartialEq, Eq, Structural)]
pub struct IndexSettings {
    pub from: u64,
    pub chunk_size: u64,
    pub min_interval_ms: u64,
}

impl IndexSettings {
    pub open spec fn wf(&self) -> bool {
        self.chunk_size > 0
    }
}

/// A chain as the base configuration describes it.
pub struct ChainConfig {
    pub domain: Domain,
    pub index: IndexSettings,
}

impl Clone for ChainConfig {
    fn clone(&self) -> (r: Self)
        ensures
            r == *self,
    {
        ChainConfig { domain: self.domain.clone(), index: self.index }
    }
}

/// The chains known to the base configuration, looked up by name.
pub struct ChainRegistry {
    pub chains: Vec<ChainConfig>,
}

/// Configuration as read, before any validation.
pub struct RawScraperSettings {
    /// Store connection string.
    pub db: Option<String>,
    /// Comma separated list of chains to scrape.
    pub chainstoscrape: Option<String>,
}

/// Validated configuration.
pub struct ScraperSettings {
    pub db: String,
    pub chains_to_scrape: Vec<ChainConfig>,
}

/// One field-level configuration problem.
pub enum ConfigFieldError {
    MissingDb,
    MissingChainList,
    EmptyChainList,
    UnknownChain(String),
}

pub enum FieldErrorModel {
    MissingDb,
    MissingChainList,
    EmptyChainList,
    UnknownChain(Seq<char>),
}

impl View for ConfigFieldError {
    type V = FieldErrorModel;

    open spec fn view(&self) -> FieldErrorModel {
        match self {
            ConfigFieldError::MissingDb => FieldErrorModel::MissingDb,
            ConfigFieldError::MissingChainList => FieldErrorModel::MissingChainList,
            ConfigFieldError::EmptyChainList => FieldErrorModel::EmptyChainList,
            ConfigFieldError::UnknownChain(n) => FieldErrorModel::UnknownChain(n@),
        }
    }
}

/// The configuration path that an error is about.
pub open spec fn spec_field_path(e: FieldErrorModel) -> Seq<char> {
    match e {
        FieldErrorModel::MissingDb => "db"@,
        FieldErrorModel::MissingChainList => "chainstoscrape"@,
        FieldErrorModel::EmptyChainList => "chainstoscrape"@,
        FieldErrorModel::UnknownChain(n) => "chains."@ + n,
    }
}

impl ConfigFieldError {
    /// The configuration path of the offending field.
    pub fn field_path(&self) -> (r: String)
        ensures
            r@ == spec_field_path(self@),
    {
        match self {
            ConfigFieldError::MissingDb => String::from_str("db"),
            ConfigFieldError::MissingChainList => String::from_str("chainstoscrape"),
            ConfigFieldError::EmptyChainList => String::from_str("chainstoscrape"),
            ConfigFieldError::UnknownChain(n) => String::from_str("chains.").concat(n.as_str()),
        }
    }
}

/// Every problem found in a configuration, in the order the fields are checked.
pub struct ConfigError {
    pub errors: Vec<ConfigFieldError>,
}

pub open spec fn errors_view(s: Seq<ConfigFieldError>) -> Seq<FieldErrorModel> {
    s.map_values(|e: ConfigFieldError| e@)
}

pub open spec fn strings_view(s: Seq<String>) -> Seq<Seq<char>> {
    s.map_values(|x: String| x@)
}

/// The pieces of `s` between separators, empty pieces included.
pub open spec fn split_on(s: Seq<char>, sep: char) -> Seq<Seq<char>>
    decreases s.len(),
{
    if s.len() == 0 {
        seq![Seq::<char>::empty()]
    } else {
        let init = split_on(s.drop_last(), sep);
        if s.last() == sep {
            init.push(Seq::<char>::empty())
        } else {
            init.update(init.len() - 1, init.last().push(s.last()))
        }
    }
}

/// The first registered chain with the given name.
pub open spec fn find_chain(chains: Seq<ChainConfig>, name: Seq<char>) -> Option<ChainConfig>
    decreases chains.len(),
{
    if chains.len() == 0 {
        None
    } else if chains[0].domain.name@ == name {
        Some(chains[0])
    } else {
        find_chain(chains.drop_first(), name)
    }
}

/// One error for each name that does not resolve, in list order.
pub open spec fn unknown_names(names: Seq<Seq<char>>, chains: Seq<ChainConfig>) -> Seq<FieldErrorModel>
    decreases names.len(),
{
    if names.len() == 0 {
        seq![]
    } else {
        let rest = unknown_names(names.drop_last(), chains);
        if find_chain(chains, names.last()) is None {
            rest.push(FieldErrorModel::UnknownChain(names.last()))
        } else {
            rest
        }
    }
}

/// The chains that the names resolve to, in list order.
pub open spec fn resolved(names: Seq<Seq<char>>, chains: Seq<ChainConfig>) -> Seq<ChainConfig>
    decreases names.len(),
{
    if names.len() == 0 {
        seq![]
    } else {
        let rest = resolved(names.drop_last(), chains);
        match find_chain(chains, names.last()) {
            Some(c) => rest.push(c),
            None => rest,
        }
    }
}

pub open spec fn db_errors(db: Option<String>) -> Seq<FieldErrorModel> {
    if db is None {
        seq![FieldErrorModel::MissingDb]
    } else {
        seq![]
    }
}

pub open spec fn chain_list_errors(list: Option<String>, chains: Seq<ChainConfig>) -> Seq<FieldErrorModel> {
    match list {
        None => seq![FieldErrorModel::MissingChainList],
        Some(s) => if s@.len() == 0 {
            seq![FieldErrorModel::EmptyChainList]
        } else {
            unknown_names(split_on(s@, ','), chains)
        },
    }
}

/// All errors of a raw configuration: the connection string first, then the chain list.
pub open spec fn config_errors(raw: RawScraperSettings, chains: Seq<ChainConfig>) -> Seq<FieldErrorModel> {
    db_errors(raw.db) + chain_list_errors(raw.chainstoscrape, chains)
}

/// Splits a comma separated list, keeping empty entries.
pub fn split_list(s: &str) -> (r: Vec<String>)
    ensures
        strings_view(r@) == split_on(s@, ','),
{
    let n = s.unicode_len();
    let mut pieces: Vec<String> = Vec::new();
    let mut start: usize = 0;
    let mut i: usize = 0;
    proof {
        assert(s@.take(0) == Seq::<char>::empty());
        assert(strings_view(pieces@) == Seq::<Seq<char>>::empty());
        assert(s@.subrange(0, 0) == Seq::<char>::empty());
        assert(strings_view(pieces@).push(Seq::<char>::empty()) == seq![Seq::<char>::empty()]);
    }
    while i < n
        invariant
            n == s@.len(),
            start <= i <= n,
            strings_view(pieces@).push(s@.subrange(start as int, i as int)) == split_on(
                s@.take(i as int),
                ',',
            ),
        decreases n - i,
    {
        let c = s.get_char(i);
        proof {
            let t = s@.take(i as int + 1);
            assert(t.drop_last() == s@.take(i as int));
            assert(t.last() == c);
        }
        let ghost seg = s@.subrange(start as int, i as int);
        let ghost init = strings_view(pieces@).push(seg);
        if c == ',' {
            let ghost before = pieces@;
            let piece = String::from_str(s.substring_char(start, i));
            pieces.push(piece);
            proof {
                assert(strings_view(pieces@) == strings_view(before).push(piece@));
                assert(s@.subrange(i as int + 1, i as int + 1) == Seq::<char>::empty());
            }
            start = i + 1;
        } else {
            proof {
                assert(s@.subrange(start as int, i as int + 1) == seg.push(c));
                assert(init.update(init.len() - 1, seg.push(c)) == strings_view(pieces@).push(
                    seg.push(c),
                ));
            }
        }
        i = i + 1;
    }
    let last = String::from_str(s.substring_char(start, n));
    pieces.push(last);
    proof {
        assert(s@.take(n as int) == s@);
    }
    pieces
}

impl ChainRegistry {
    /// The first registered chain whose name is `name`.
    pub fn lookup_domain(&self, name: &String) -> (r: Option<ChainConfig>)
        ensures
            r == find_chain(self.chains@, name@),
    {
        let mut i: usize = 0;
        proof {
            assert(self.chains@.skip(0) == self.chains@);
        }
        while i < self.chains.len()
            invariant
                i <= self.chains@.len(),
                find_chain(self.chains@, name@) == find_chain(self.chains@.skip(i as int), name@),
            decreases self.chains@.len() - i,
        {
            let ghost rest = self.chains@.skip(i as int);
            proof {
                assert(rest.drop_first() == self.chains@.skip(i as int + 1));
                assert(rest[0] == self.chains@[i as int]);
            }
            if self.chains[i].domain.name == *name {
                return Some(self.chains[i].clone());
            }
            i = i + 1;
        }
        None
    }

    /// Resolves each name in turn: the chains found, and one error per name that is not.
    pub fn resolve_names(&self, names: &Vec<String>) -> (r: (Vec<ChainConfig>, Vec<ConfigFieldError>))
        ensures
            r.0@ == resolved(strings_view(names@), self.chains@),
            errors_view(r.1@) == unknown_names(strings_view(names@), self.chains@),
    {
        let mut found: Vec<ChainConfig> = Vec::new();
        let mut errors: Vec<ConfigFieldError> = Vec::new();
        let mut i: usize = 0;
        proof {
            assert(strings_view(names@).take(0) == Seq::<Seq<char>>::empty());
            assert(errors_view(errors@) == Seq::<FieldErrorModel>::empty());
        }
        while i < names.len()
            invariant
                i <= names@.len(),
                found@ == resolved(strings_view(names@).take(i as int), self.chains@),
                errors_view(errors@) == unknown_names(strings_view(names@).take(i as int), self.chains@),
            decreases names@.len() - i,
        {
            let ghost t = strings_view(names@).take(i as int + 1);
            proof {
                assert(t.drop_last() == strings_view(names@).take(i as int));
                assert(t.last() == names@[i as int]@);
            }
            let ghost before = errors@;
            match self.lookup_domain(&names[i]) {
                Some(c) => {
                    found.push(c);
                },
                None => {
                    errors.push(ConfigFieldError::UnknownChain(names[i].clone()));
                    proof {
                        assert(errors_view(errors@) == errors_view(before).push(errors@.last()@));
                    }
                },
            }
            i = i + 1;
        }
        proof {
            assert(strings_view(names@).take(names@.len() as int) == strings_view(names@));
        }
        (found, errors)
    }
}

impl ScraperSettings {
    /// Validates a raw configuration against the registry, collecting every error.
    pub fn from_config_filtered(raw: RawScraperSettings, registry: &ChainRegistry) -> (r: Result<ScraperSettings, ConfigError>)
        ensures
            r is Ok <==> config_errors(raw, registry.chains@).len() == 0,
            r matches Ok(settings) ==> settings.db == raw.db->0 && settings.chains_to_scrape@ == resolved(
                split_on(raw.chainstoscrape->0@, ','),
                registry.chains@,
            ),
            r matches Err(e) ==> errors_view(e.errors@) == config_errors(raw, registry.chains@),
    {
        let ghost raw0 = raw;
        let RawScraperSettings { db, chainstoscrape } = raw;
        let mut errors: Vec<ConfigFieldError> = Vec::new();
        if db.is_none() {
            errors.push(ConfigFieldError::MissingDb);
        }
        proof {
            assert(errors_view(errors@) == db_errors(db));
        }
        let ghost db_part = errors@;
        let mut chains: Vec<ChainConfig> = Vec::new();
        match chainstoscrape {
            None => {
                errors.push(ConfigFieldError::MissingChainList);
            },
            Some(list) => {
                if list.as_str().unicode_len() == 0 {
                    errors.push(ConfigFieldError::EmptyChainList);
                } else {
                    let names = split_list(list.as_str());
                    let (found, mut unknown) = registry.resolve_names(&names);
                    chains = found;
                    errors.append(&mut unknown);
                }
            },
        }
        proof {
            assert(errors@ =~= db_part + errors@.skip(db_part.len() as int));
            assert(errors_view(errors@) == errors_view(db_part) + errors_view(errors@.skip(db_part.len() as int)));
        }
        if errors.len() == 0 {
            match db {
                Some(db) => Ok(ScraperSettings { db, chains_to_scrape: chains }),
                None => Err(ConfigError { errors }),
            }
        } else {
            Err(ConfigError { errors })
        }
    }
}

proof fn lemma_unknown_names_has_no_db_error(names: Seq<Seq<char>>, chains: Seq<ChainConfig>)
    ensures
        unknown_names(names, chains).filter(|e: FieldErrorModel| e is MissingDb).len() == 0,
    decreases names.len(),
{
    if names.len() > 0 {
        let rest = unknown_names(names.drop_last(), chains);
        lemma_unknown_names_has_no_db_error(names.drop_last(), chains);
        if find_chain(chains, names.last()) is None {
            let e = FieldErrorModel::UnknownChain(names.last());
            Seq::filter_distributes_over_add(rest, seq![e], |e: FieldErrorModel| e is MissingDb);
            assert(rest.push(e) == rest + seq![e]);
            assert(seq![e].filter(|e: FieldErrorModel| e is MissingDb) =~= Seq::<FieldErrorModel>::empty()) by {
                reveal_with_fuel(Seq::filter, 2);
            }
        }
    }
}

/// A missing connection string is reported exactly once, and the chain list is
/// judged exactly as it would be had the connection string been given.
pub proof fn lemma_missing_db_reported_once(raw: RawScraperSettings, chains: Seq<ChainConfig>, db: String)
    requires
        raw.db is None,
    ensures
        config_errors(raw, chains) == seq![FieldErrorModel::MissingDb] + config_errors(
            RawScraperSettings { db: Some(db), chainstoscrape: raw.chainstoscrape },
            chains,
        ),
        config_errors(raw, chains).filter(|e: FieldErrorModel| e is MissingDb).len() == 1,
{
    let f = |e: FieldErrorModel| e is MissingDb;
    let rest = chain_list_errors(raw.chainstoscrape, chains);
    assert(db_errors(Some(db)) + rest == rest);
    Seq::filter_distributes_over_add(seq![FieldErrorModel::MissingDb], rest, f);
    assert(seq![FieldErrorModel::MissingDb].filter(f) =~= seq![FieldErrorModel::MissingDb]) by {
        reveal_with_fuel(Seq::filter, 2);
    }
    match raw.chainstoscrape {
        None => {
            assert(rest.filter(f) =~= Seq::<FieldErrorModel>::empty()) by {
                reveal_with_fuel(Seq::filter, 2);
            }
        },
        Some(s) => {
            if s@.len() == 0 {
                assert(rest.filter(f) =~= Seq::<FieldErrorModel>::empty()) by {
                    reveal_with_fuel(Seq::filter, 2);
                }
            } else {
                lemma_unknown_names_has_no_db_error(split_on(s@, ','), chains);
            }
        },
    }
}

proof fn lemma_all_resolve(names: Seq<Seq<char>>, chains: Seq<ChainConfig>)
    requires
        forall|j: int| 0 <= j < names.len() ==> find_chain(chains, #[trigger] names[j]) is Some,
    ensures
        unknown_names(names, chains) == Seq::<FieldErrorModel>::empty(),
        resolved(names, chains).len() == names.len(),
    decreases names.len(),
{
    if names.len() > 0 {
        assert(find_chain(chains, names[names.len() - 1]) is Some);
        lemma_all_resolve(names.drop_last(), chains);
    }
}

/// In a list where exactly one name is unregistered, that name is the only error
/// and every other name resolves.
pub proof fn lemma_one_unknown_name(names: Seq<Seq<char>>, chains: Seq<ChainConfig>, k: int)
    requires
        0 <= k < names.len(),
        find_chain(chains, names[k]) is None,
        forall|j: int| 0 <= j < names.len() && j != k ==> find_chain(chains, #[trigger] names[j]) is Some,
    ensures
        unknown_names(names, chains) == seq![FieldErrorModel::UnknownChain(names[k])],
        resolved(names, chains).len() == names.len() - 1,
    decreases names.len(),
{
    let init = names.drop_last();
    if k == names.len() - 1 {
        assert forall|j: int| 0 <= j < init.len() implies find_chain(chains, #[trigger] init[j]) is Some by {
            assert(init[j] == names[j]);
        }
        lemma_all_resolve(init, chains);
        assert(Seq::<FieldErrorModel>::empty().push(FieldErrorModel::UnknownChain(names[k])) == seq![
            FieldErrorModel::UnknownChain(names[k]),
        ]);
    } else {
        assert(init[k] == names[k]);
        assert forall|j: int| 0 <= j < init.len() && j != k implies find_chain(chains, #[trigger] init[j]) is Some by {
            assert(init[j] == names[j]);
        }
        lemma_one_unknown_name(init, chains, k);
        assert(find_chain(chains, names[names.len() - 1]) is Some);
    }
}

} // verus!
