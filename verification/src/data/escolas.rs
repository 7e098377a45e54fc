//! The data source of the school census.

use vstd::prelude::*;
use super::base::data_source::DataSource;
use std::marker::PhantomData;

verus! {

/// Where the archive is published.
pub const WEB_SOURCE: &'static str = "https://download.inep.gov.br/dados_abertos/microdados_censo_escolar_2024.zip";

/// Where the data file lies once the archive is unpacked.
pub const SOURCE_PATH: &'static str = "microdados_censo_escolar_2024/microdados_censo_escolar_2024/dados/microdados_ed_basica_2024.csv";

/// Where the data's structure is described.
pub const STRUCT_PATH: &'static str = "escolas.json";

/// The data source of the school census.
pub struct EscolasDataSource<'a> {
    _marker: PhantomData<&'a ()>,
}

impl<'a> DataSource<'a> for EscolasDataSource<'a> {
    fn _web_source(&self) -> (r: String)
        ensures
            r@ == WEB_SOURCE@,
    {
        WEB_SOURCE.to_owned()
    }

    fn _source_path(&self) -> (r: String)
        ensures
            r@ == SOURCE_PATH@,
    {
        SOURCE_PATH.to_owned()
    }

    fn _struct_path(&self) -> (r: String)
        ensures
            r@ == STRUCT_PATH@,
    {
        STRUCT_PATH.to_owned()
    }

    fn new() -> Self {
        Self { _marker: PhantomData }
    }
}

} // verus!
