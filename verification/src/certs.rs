//! Which root certificates are trusted.

use vstd::prelude::*;

use crate::flags::CaData;
use crate::path::{join, path_join};
use crate::text::{concat2, concat3, same_text, split_parts, split_text, trim_text, trimmed};

verus! {

/// Why a root certificate store could not be set up.
#[derive(Debug)]
pub enum RootCertStoreLoadError {
    UnknownStore(String),
    FailedAddPemFile(String),
    CaFileOpenError(String),
}

/// The message of an error.
pub open spec fn cert_error_message(error: RootCertStoreLoadError) -> Seq<char> {
    match error {
        RootCertStoreLoadError::UnknownStore(store) => "Unknown certificate store \""@ + store@
            + "\" specified (allowed: \"system,mozilla\")"@,
        RootCertStoreLoadError::FailedAddPemFile(cause) =>
            "Unable to add pem file to certificate store: "@ + cause@,
        RootCertStoreLoadError::CaFileOpenError(cause) => "Failed opening CA file: "@ + cause@,
    }
}

impl RootCertStoreLoadError {
    /// The message of the error.
    pub fn message(&self) -> (r: String)
        ensures
            r@ == cert_error_message(*self),
    {
        match self {
            RootCertStoreLoadError::UnknownStore(store) => concat3(
                "Unknown certificate store \"",
                store.as_str(),
                "\" specified (allowed: \"system,mozilla\")",
            ),
            RootCertStoreLoadError::FailedAddPemFile(cause) => concat2(
                "Unable to add pem file to certificate store: ",
                cause.as_str(),
            ),
            RootCertStoreLoadError::CaFileOpenError(cause) => concat2(
                "Failed opening CA file: ",
                cause.as_str(),
            ),
        }
    }
}

/// A step in setting up a root certificate store.
#[derive(Debug)]
pub enum CertStep {
    /// Add the certificates of the Mozilla collection.
    AddMozilla,
    /// Add the certificates of the operating system.
    AddSystem,
    /// Add the certificates of a PEM file.
    AddPemFile(String),
    /// Add the certificates of PEM data.
    AddPemData(Vec<u8>),
    /// Give up: there is no store of this name.
    UnknownStore(String),
}

/// A step in setting up a root certificate store.
pub ghost enum CertStepView {
    AddMozilla,
    AddSystem,
    AddPemFile(Seq<char>),
    AddPemData(Seq<u8>),
    UnknownStore(Seq<char>),
}

impl DeepView for CertStep {
    type V = CertStepView;

    open spec fn deep_view(&self) -> CertStepView {
        match *self {
            CertStep::AddMozilla => CertStepView::AddMozilla,
            CertStep::AddSystem => CertStepView::AddSystem,
            CertStep::AddPemFile(path) => CertStepView::AddPemFile(path@),
            CertStep::AddPemData(data) => CertStepView::AddPemData(data@),
            CertStep::UnknownStore(store) => CertStepView::UnknownStore(store@),
        }
    }
}

/// The texts of `parts` without white space around them, those that are empty
/// left out.
pub open spec fn named_stores(parts: Seq<Seq<char>>) -> Seq<Seq<char>>
    decreases parts.len(),
{
    if parts.len() == 0 {
        Seq::empty()
    } else if trimmed(parts.last()).len() == 0 {
        named_stores(parts.drop_last())
    } else {
        named_stores(parts.drop_last()).push(trimmed(parts.last()))
    }
}

/// The stores in use: those of the flags, else those that the environment lists
/// behind commas, else the Mozilla collection.
pub open spec fn chosen_stores(
    ca_stores: Option<Seq<Seq<char>>>,
    env_ca_store: Option<Seq<char>>,
) -> Seq<Seq<char>> {
    match ca_stores {
        Some(stores) => stores,
        None => match env_ca_store {
            Some(value) => named_stores(split_parts(value, ',')),
            None => seq!["mozilla"@],
        },
    }
}

/// The step that adds the store of the given name.
pub open spec fn store_step(store: Seq<char>) -> CertStepView {
    if store == "mozilla"@ {
        CertStepView::AddMozilla
    } else if store == "system"@ {
        CertStepView::AddSystem
    } else {
        CertStepView::UnknownStore(store)
    }
}

/// Whether the last of `steps` gives up.
pub open spec fn gives_up(steps: Seq<CertStepView>) -> bool {
    steps.len() > 0 && steps.last() is UnknownStore
}

/// The steps that add `stores`, up to the first that is unknown.
pub open spec fn store_steps(stores: Seq<Seq<char>>) -> Seq<CertStepView>
    decreases stores.len(),
{
    if stores.len() == 0 {
        Seq::empty()
    } else {
        let before = store_steps(stores.drop_last());
        if gives_up(before) {
            before
        } else {
            before.push(store_step(stores.last()))
        }
    }
}

/// The step that adds certificate authority data: that of the flags, else the
/// file that the environment names. A file is seen from the root path, if there
/// is one.
pub open spec fn ca_data_steps(
    root_path: Option<Seq<char>>,
    ca_data: Option<CaData>,
    env_cert: Option<Seq<char>>,
) -> Seq<CertStepView> {
    let file = match ca_data {
        Some(CaData::Bytes(_)) => None,
        Some(CaData::File(file)) => Some(file@),
        None => env_cert,
    };
    match ca_data {
        Some(CaData::Bytes(data)) => seq![CertStepView::AddPemData(data@)],
        _ => match file {
            Some(file) => seq![
                CertStepView::AddPemFile(
                    match root_path {
                        Some(root) => path_join(root, file),
                        None => file,
                    },
                ),
            ],
            None => Seq::empty(),
        },
    }
}

/// The steps that set up the root certificate store, in order.
pub open spec fn cert_store_steps(
    root_path: Option<Seq<char>>,
    ca_stores: Option<Seq<Seq<char>>>,
    ca_data: Option<CaData>,
    env_ca_store: Option<Seq<char>>,
    env_cert: Option<Seq<char>>,
) -> Seq<CertStepView> {
    let steps = store_steps(chosen_stores(ca_stores, env_ca_store));
    if gives_up(steps) {
        steps
    } else {
        steps + ca_data_steps(root_path, ca_data, env_cert)
    }
}

fn parse_store_list(value: &str) -> (r: Vec<String>)
    ensures
        r.deep_view() == named_stores(split_parts(value@, ',')),
{
    let parts: Vec<String> = split_text(value, ',');
    let mut stores: Vec<String> = Vec::new();
    let mut i: usize = 0;
    assert(parts.deep_view().take(0) == Seq::<Seq<char>>::empty());
    assert(stores.deep_view() == Seq::<Seq<char>>::empty());
    while i < parts.len()
        invariant
            i <= parts.len(),
            stores.deep_view() == named_stores(parts.deep_view().take(i as int)),
        decreases parts.len() - i,
    {
        let ghost before = stores.deep_view();
        assert(parts.deep_view().take(i + 1).drop_last() == parts.deep_view().take(i as int));
        assert(parts.deep_view().take(i + 1).last() == parts@[i as int]@);
        let store: String = trim_text(parts[i].as_str());
        if !same_text(store.as_str(), "") {
            assert(store@.len() > 0) by {
                reveal_strlit("");
                if store@.len() == 0 {
                    assert(store@ == ""@);
                }
            }
            stores.push(store);
            assert(stores.deep_view() == before.push(store@));
        } else {
            assert(store@.len() == 0) by {
                reveal_strlit("");
            }
        }
        i = i + 1;
    }
    assert(parts.deep_view().take(i as int) == parts.deep_view());
    stores
}

proof fn lemma_giving_up_stays(stores: Seq<Seq<char>>, count: int)
    requires
        0 <= count <= stores.len(),
        gives_up(store_steps(stores.take(count))),
    ensures
        store_steps(stores) == store_steps(stores.take(count)),
    decreases stores.len() - count,
{
    if count == stores.len() {
        assert(stores.take(count) == stores);
    } else {
        assert(stores.take(count + 1).drop_last() == stores.take(count));
        lemma_giving_up_stays(stores, count + 1);
    }
}

/// The steps that set up the root certificate store for the given options and
/// the values of `DENO_TLS_CA_STORE` and `DENO_CERT`.
pub fn get_root_cert_store(
    maybe_root_path: Option<&str>,
    maybe_ca_stores: Option<Vec<String>>,
    maybe_ca_data: Option<CaData>,
    env_ca_store: Option<&str>,
    env_cert: Option<&str>,
) -> (r: Vec<CertStep>)
    ensures
        r.deep_view() == cert_store_steps(
            maybe_root_path.deep_view(),
            maybe_ca_stores.deep_view(),
            maybe_ca_data,
            env_ca_store.deep_view(),
            env_cert.deep_view(),
        ),
{
    let stores: Vec<String> = match maybe_ca_stores {
        Some(stores) => stores,
        None => match env_ca_store {
            Some(value) => parse_store_list(value),
            None => {
                let mut stores: Vec<String> = Vec::new();
                stores.push("mozilla".to_owned());
                assert(stores.deep_view() == seq!["mozilla"@]);
                stores
            },
        },
    };
    let mut steps: Vec<CertStep> = Vec::new();
    let mut i: usize = 0;
    assert(stores.deep_view().take(0) == Seq::<Seq<char>>::empty());
    assert(steps.deep_view() == Seq::<CertStepView>::empty());
    while i < stores.len()
        invariant
            i <= stores.len(),
            steps.deep_view() == store_steps(stores.deep_view().take(i as int)),
            !gives_up(steps.deep_view()),
            stores.deep_view() == chosen_stores(
                maybe_ca_stores.deep_view(),
                env_ca_store.deep_view(),
            ),
        decreases stores.len() - i,
    {
        let ghost before = steps.deep_view();
        assert(stores.deep_view().take(i + 1).drop_last() == stores.deep_view().take(i as int));
        assert(stores.deep_view().take(i + 1).last() == stores@[i as int]@);
        let store: &String = &stores[i];
        if same_text(store.as_str(), "mozilla") {
            steps.push(CertStep::AddMozilla);
            assert(steps.deep_view() == before.push(CertStepView::AddMozilla));
        } else if same_text(store.as_str(), "system") {
            steps.push(CertStep::AddSystem);
            assert(steps.deep_view() == before.push(CertStepView::AddSystem));
        } else {
            steps.push(CertStep::UnknownStore(store.clone()));
            assert(steps.deep_view() == before.push(CertStepView::UnknownStore(store@)));
            proof {
                lemma_giving_up_stays(stores.deep_view(), i + 1);
            }
            return steps;
        }
        i = i + 1;
    }
    assert(stores.deep_view().take(i as int) == stores.deep_view());
    let ghost before = steps.deep_view();
    let ca_data: Option<CaData> = match maybe_ca_data {
        Some(ca_data) => Some(ca_data),
        None => match env_cert {
            Some(file) => Some(CaData::File(file.to_owned())),
            None => None,
        },
    };
    match ca_data {
        Some(CaData::File(file)) => {
            let path: String = match maybe_root_path {
                Some(root) => join(root, file.as_str()),
                None => file,
            };
            steps.push(CertStep::AddPemFile(path));
            assert(steps.deep_view() == before.push(CertStepView::AddPemFile(path@)));
            assert(before.push(CertStepView::AddPemFile(path@)) == before + seq![
                CertStepView::AddPemFile(path@),
            ]);
        },
        Some(CaData::Bytes(data)) => {
            steps.push(CertStep::AddPemData(data));
            assert(steps.deep_view() == before.push(CertStepView::AddPemData(data@)));
            assert(before.push(CertStepView::AddPemData(data@)) == before + seq![
                CertStepView::AddPemData(data@),
            ]);
        },
        None => {
            assert(before + Seq::<CertStepView>::empty() == before);
        },
    }
    steps
}

/// What came of reading PEM certificates.
#[derive(Debug)]
pub enum PemRead {
    /// The certificates were read.
    Certificates,
    /// The file could not be opened, with the reason.
    NotOpened(String),
    /// The data is no PEM data, with the reason.
    Malformed(String),
}

/// The error that reading PEM certificates leads to.
pub fn pem_read_error(read: PemRead) -> (r: Option<RootCertStoreLoadError>)
    ensures
        r == (match read {
            PemRead::Certificates => None,
            PemRead::NotOpened(cause) => Some(RootCertStoreLoadError::CaFileOpenError(cause)),
            PemRead::Malformed(cause) => Some(RootCertStoreLoadError::FailedAddPemFile(cause)),
        }),
{
    match read {
        PemRead::Certificates => None,
        PemRead::NotOpened(cause) => Some(RootCertStoreLoadError::CaFileOpenError(cause)),
        PemRead::Malformed(cause) => Some(RootCertStoreLoadError::FailedAddPemFile(cause)),
    }
}

/// Whether a text names a store.
pub open spec fn is_known_store(store: Seq<char>) -> bool {
    store == "mozilla"@ || store == "system"@
}

/// Every store that is asked for is added, in order, exactly when all of them
/// are known; otherwise the steps end with the first one that is not, and no
/// certificate authority data is read.
pub proof fn law_unknown_store_gives_up(
    root_path: Option<Seq<char>>,
    stores: Seq<Seq<char>>,
    ca_data: Option<CaData>,
    env_ca_store: Option<Seq<char>>,
    env_cert: Option<Seq<char>>,
)
    ensures
        ({
            let steps = cert_store_steps(
                root_path,
                Some(stores),
                ca_data,
                env_ca_store,
                env_cert,
            );
            let known = forall|i: int|
                0 <= i < stores.len() ==> is_known_store(#[trigger] stores[i]);
            &&& gives_up(steps) <==> !known
            &&& known ==> steps == stores.map_values(|store: Seq<char>| store_step(store))
                + ca_data_steps(root_path, ca_data, env_cert)
            &&& !known ==> steps == store_steps(stores)
        }),
{
    lemma_store_steps(stores);
    let tail = ca_data_steps(root_path, ca_data, env_cert);
    let steps = store_steps(stores);
    if !gives_up(steps) {
        if tail.len() > 0 {
            assert((steps + tail).last() == tail.last());
        } else {
            assert(steps + tail == steps);
        }
    }
}

proof fn lemma_store_steps(stores: Seq<Seq<char>>)
    ensures
        gives_up(store_steps(stores)) <==> !(forall|i: int|
            0 <= i < stores.len() ==> is_known_store(#[trigger] stores[i])),
        !gives_up(store_steps(stores)) ==> store_steps(stores) == stores.map_values(
            |store: Seq<char>| store_step(store),
        ),
    decreases stores.len(),
{
    let f = |store: Seq<char>| store_step(store);
    if stores.len() == 0 {
        assert(stores.map_values(f) == Seq::<CertStepView>::empty());
    } else {
        let front = stores.drop_last();
        lemma_store_steps(front);
        assert(stores.map_values(f) == front.map_values(f).push(store_step(stores.last())));
        if gives_up(store_steps(front)) {
            let k = choose|i: int| 0 <= i < front.len() && !is_known_store(#[trigger] front[i]);
            assert(stores[k] == front[k]);
        } else {
            assert forall|i: int| 0 <= i < front.len() implies is_known_store(
                #[trigger] stores[i],
            ) by {
                assert(front[i] == stores[i]);
            }
            assert(store_steps(stores).last() == store_step(stores.last()));
            assert(stores[stores.len() - 1] == stores.last());
        }
    }
}

/// Without any option or environment variable, the Mozilla collection alone is
/// trusted.
pub proof fn law_default_store(root_path: Option<Seq<char>>)
    ensures
        cert_store_steps(root_path, None, None, None, None) == seq![CertStepView::AddMozilla],
{
    let stores = seq!["mozilla"@];
    assert(stores.drop_last() == Seq::<Seq<char>>::empty());
    assert(store_steps(stores.drop_last()) == Seq::<CertStepView>::empty());
    assert(store_steps(stores) == seq![CertStepView::AddMozilla]);
    assert(seq![CertStepView::AddMozilla] + Seq::<CertStepView>::empty() == seq![
        CertStepView::AddMozilla,
    ]);
}

/// Whether stores are those that the flags name, else those that the environment lists
/// behind commas, without the white space around them and without those that are
/// empty, else the Mozilla collection.
pub open spec fn are_asked_stores(
    stores: Seq<Seq<char>>,
    ca_stores: Option<Vec<String>>,
    env_ca_store: Option<&str>,
) -> bool {
    &&& ca_stores is Some ==> stores == ca_stores->0.deep_view()
    &&& ca_stores is None && env_ca_store is Some ==> stores == split_parts(
        env_ca_store->0@,
        ',',
    ).map_values(|part: Seq<char>| trimmed(part)).filter(|part: Seq<char>| part.len() > 0)
    &&& ca_stores is None && env_ca_store is None ==> stores == seq!["mozilla"@]
}

/// Whether a step adds the store of a name.
pub open spec fn adds_store(step: CertStepView, store: Seq<char>) -> bool {
    ||| store == "mozilla"@ && step is AddMozilla
    ||| store == "system"@ && step is AddSystem
}

/// Whether a step adds certificate authority data: that of the flags, else the file
/// that the environment names. A file is seen from the root path, if there is one.
pub open spec fn adds_ca_data(
    step: CertStepView,
    root_path: Option<&str>,
    ca_data: Option<CaData>,
    env_cert: Option<&str>,
) -> bool {
    match step {
        CertStepView::AddPemData(data) => ca_data matches Some(CaData::Bytes(bytes)) && data
            == bytes@,
        CertStepView::AddPemFile(path) => {
            let file = if ca_data is Some {
                ca_data->0->File_0@
            } else {
                env_cert->0@
            };
            &&& !(ca_data matches Some(CaData::Bytes(_)))
            &&& ca_data is Some || env_cert is Some
            &&& root_path is Some ==> path == path_join(root_path->0@, file)
            &&& root_path is None ==> path == file
        },
        _ => false,
    }
}

proof fn lemma_named_stores(parts: Seq<Seq<char>>)
    ensures
        named_stores(parts) == parts.map_values(|part: Seq<char>| trimmed(part)).filter(
            |part: Seq<char>| part.len() > 0,
        ),
    decreases parts.len(),
{
    let trim = |part: Seq<char>| trimmed(part);
    let keep = |part: Seq<char>| part.len() > 0;
    reveal(Seq::filter);
    let all = parts.map_values(trim);
    if parts.len() > 0 {
        lemma_named_stores(parts.drop_last());
        assert(all.drop_last() == parts.drop_last().map_values(trim));
        assert(all.last() == trimmed(parts.last()));
    }
}

/// Whatever the stores come from, as long as they are known each is added by a step of
/// its own, in order, and behind them comes exactly one step for certificate authority
/// data if there is any, and none otherwise. At the first store that is not known the
/// steps end with giving up on it.
pub proof fn law_cert_steps(
    root_path: Option<&str>,
    ca_stores: Option<Vec<String>>,
    ca_data: Option<CaData>,
    env_ca_store: Option<&str>,
    env_cert: Option<&str>,
    stores: Seq<Seq<char>>,
    r: Vec<CertStep>,
)
    requires
        call_ensures(
            get_root_cert_store,
            (root_path, ca_stores, ca_data, env_ca_store, env_cert),
            r,
        ),
        are_asked_stores(stores, ca_stores, env_ca_store),
    ensures
        (forall|i: int| 0 <= i < stores.len() ==> is_known_store(#[trigger] stores[i])) ==> {
            let steps = r.deep_view();
            &&& forall|i: int|
                0 <= i < stores.len() ==> adds_store(#[trigger] steps[i], stores[i])
            &&& ca_data is Some || env_cert is Some ==> steps.len() == stores.len() + 1
                && adds_ca_data(steps.last(), root_path, ca_data, env_cert)
            &&& ca_data is None && env_cert is None ==> steps.len() == stores.len()
        },
        forall|k: int|
            0 <= k < stores.len() && !is_known_store(#[trigger] stores[k]) && (forall|i: int|
                0 <= i < k ==> is_known_store(#[trigger] stores[i])) ==> {
                let steps = r.deep_view();
                &&& steps.len() == k + 1
                &&& steps[k] == CertStepView::UnknownStore(stores[k])
                &&& forall|i: int| 0 <= i < k ==> adds_store(#[trigger] steps[i], stores[i])
            },
{
    if ca_stores is None && env_ca_store is Some {
        lemma_named_stores(split_parts(env_ca_store->0@, ','));
    }
    assert(stores == chosen_stores(ca_stores.deep_view(), env_ca_store.deep_view()));
    lemma_store_steps(stores);
    let steps = r.deep_view();
    let tail = ca_data_steps(root_path.deep_view(), ca_data, env_cert.deep_view());
    if (forall|i: int| 0 <= i < stores.len() ==> is_known_store(#[trigger] stores[i])) {
        assert(steps == store_steps(stores) + tail);
        assert forall|i: int| 0 <= i < stores.len() implies adds_store(
            #[trigger] steps[i],
            stores[i],
        ) by {
            assert(is_known_store(stores[i]));
        }
        if tail.len() > 0 {
            assert(steps.last() == tail[0]);
        }
    }
    assert forall|k: int|
        0 <= k < stores.len() && !is_known_store(#[trigger] stores[k]) && (forall|i: int|
            0 <= i < k ==> is_known_store(#[trigger] stores[i])) implies ({
        &&& steps.len() == k + 1
        &&& steps[k] == CertStepView::UnknownStore(stores[k])
        &&& forall|i: int| 0 <= i < k ==> adds_store(#[trigger] steps[i], stores[i])
    }) by {
        let known = stores.take(k);
        assert forall|i: int| 0 <= i < k implies is_known_store(#[trigger] known[i]) by {
            assert(is_known_store(stores[i]));
        }
        lemma_store_steps(known);
        assert(stores.take(k + 1).drop_last() == known);
        assert(stores.take(k + 1).last() == stores[k]);
        assert(store_steps(stores.take(k + 1)).last() == CertStepView::UnknownStore(stores[k]));
        lemma_giving_up_stays(stores, k + 1);
        assert forall|i: int| 0 <= i < k implies adds_store(#[trigger] steps[i], stores[i]) by {
            assert(is_known_store(stores[i]));
            assert(known[i] == stores[i]);
        }
    }
}

/// Certificates that were read lead to no error; a file that could not be opened and
/// data that could not be parsed lead to errors of their own, which name the cause.
pub proof fn law_pem_errors(read: PemRead, r: Option<RootCertStoreLoadError>)
    requires
        call_ensures(pem_read_error, (read,), r),
    ensures
        r is None <==> read is Certificates,
        read matches PemRead::NotOpened(cause) ==> r == Some(
            RootCertStoreLoadError::CaFileOpenError(cause),
        ),
        read matches PemRead::Malformed(cause) ==> r == Some(
            RootCertStoreLoadError::FailedAddPemFile(cause),
        ),
{
}

/// The message on a store quotes its name and the names that are allowed; the other
/// messages end with their cause.
pub proof fn law_cert_error_message(error: RootCertStoreLoadError, r: String)
    requires
        call_ensures(RootCertStoreLoadError::message, (&error,), r),
    ensures
        error matches RootCertStoreLoadError::UnknownStore(store) ==> r@
            == "Unknown certificate store \""@ + store@
            + "\" specified (allowed: \"system,mozilla\")"@,
        error matches RootCertStoreLoadError::FailedAddPemFile(cause) ==> r@
            == "Unable to add pem file to certificate store: "@ + cause@,
        error matches RootCertStoreLoadError::CaFileOpenError(cause) ==> r@
            == "Failed opening CA file: "@ + cause@,
{
}

} // verus!
